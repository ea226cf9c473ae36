//! Reading `#rrggbb` color strings.
use vstd::prelude::*;
use vstd::string::StringSliceAdditionalSpecFns;
use vstd::utf8::encode_utf8;

verus! {

/// An opaque color with 8-bit channels.
#[derive(Clone, Copy, Debug, PartialEq, Eq, Structural)]
pub struct Rgb {
    pub r: u8,
    pub g: u8,
    pub b: u8,
}

pub const HASH: u8 = 35;

/// Value of a hexadecimal digit byte.
pub open spec fn hex_value(b: u8) -> Option<nat> {
    if 48 <= b <= 57 {
        Some((b - 48) as nat)
    } else if 97 <= b <= 102 {
        Some((b - 87) as nat)
    } else if 65 <= b <= 70 {
        Some((b - 55) as nat)
    } else {
        None
    }
}

/// A two-byte channel in base 16 (an optional leading `+` and one digit, or
/// two digits); 255 when it is not one.
pub open spec fn channel(a: u8, b: u8) -> nat {
    if a == 43 && hex_value(b) is Some {
        hex_value(b).unwrap()
    } else if hex_value(a) is Some && hex_value(b) is Some {
        hex_value(a).unwrap() * 16 + hex_value(b).unwrap()
    } else {
        255
    }
}

/// `s` without its leading `#` bytes.
pub open spec fn trim_hashes(s: Seq<u8>) -> Seq<u8>
    decreases s.len(),
{
    if s.len() > 0 && s[0] == HASH {
        trim_hashes(s.drop_first())
    } else {
        s
    }
}

/// The color a string names: channels from the first six bytes after the
/// leading `#`s, or white when fewer than six remain.
pub open spec fn color_named(s: Seq<u8>) -> (nat, nat, nat) {
    let h = trim_hashes(s);
    if h.len() < 6 {
        (255, 255, 255)
    } else {
        (channel(h[0], h[1]), channel(h[2], h[3]), channel(h[4], h[5]))
    }
}

fn hex_digit(b: u8) -> (r: Option<u8>)
    ensures
        match r {
            Some(v) => hex_value(b) == Some(v as nat) && v < 16,
            None => hex_value(b) is None,
        },
{
    if 48 <= b && b <= 57 {
        Some(b - 48)
    } else if 97 <= b && b <= 102 {
        Some(b - 87)
    } else if 65 <= b && b <= 70 {
        Some(b - 55)
    } else {
        None
    }
}

fn parse_channel(a: u8, b: u8) -> (r: u8)
    ensures
        r as nat == channel(a, b),
{
    match (hex_digit(a), hex_digit(b)) {
        (_, Some(y)) if a == 43 => y,
        (Some(x), Some(y)) => x * 16 + y,
        _ => 255,
    }
}

/// Reads a `#rrggbb` color; white when fewer than six characters follow
/// the leading `#`s, and 255 for a channel that is not hexadecimal.
pub fn parse_hex_color(hex: &str) -> (r: Rgb)
    ensures
        (r.r as nat, r.g as nat, r.b as nat) == color_named(encode_utf8(hex@)),
{
    let s = hex.as_bytes();
    let mut i: usize = 0;
    assert(s@.subrange(0, s@.len() as int) =~= s@);
    while i < s.len() && s[i] == HASH
        invariant
            i <= s@.len(),
            trim_hashes(s@) == trim_hashes(s@.subrange(i as int, s@.len() as int)),
        decreases s@.len() - i,
    {
        let ghost t = s@.subrange(i as int, s@.len() as int);
        assert(t.drop_first() =~= s@.subrange(i + 1, s@.len() as int));
        i = i + 1;
    }
    let ghost h = s@.subrange(i as int, s@.len() as int);
    assert(trim_hashes(h) == h);
    if s.len() - i < 6 {
        return Rgb { r: 255, g: 255, b: 255 };
    }
    Rgb {
        r: parse_channel(s[i], s[i + 1]),
        g: parse_channel(s[i + 2], s[i + 3]),
        b: parse_channel(s[i + 4], s[i + 5]),
    }
}

/// Reads a `#rrggbb` color into 16-bit channels, as toolkits with 16-bit
/// color take it: each 8-bit channel times 257 (white when unreadable, as
/// for `parse_hex_color`).
pub fn parse_hex_color_u16(hex: &str) -> (r: (u16, u16, u16))
    ensures
        (r.0 as nat, r.1 as nat, r.2 as nat) == ({
            let c = color_named(encode_utf8(hex@));
            (c.0 * 257, c.1 * 257, c.2 * 257)
        }),
{
    let c = parse_hex_color(hex);
    (c.r as u16 * 257, c.g as u16 * 257, c.b as u16 * 257)
}

} // verus!
