//! `#RRGGBB` colors: parsing, formatting and intensity scaling.
use vstd::prelude::*;
use vstd::string::{StringExecFns, StringSliceAdditionalSpecFns};

verus! {

/// A color as three 8-bit channels.
#[derive(Clone, Copy, Debug, PartialEq, Eq, Structural)]
pub struct RgbColor {
    pub r: u8,
    pub g: u8,
    pub b: u8,
}

/// Why a text is not a color.
#[derive(Clone, Copy, Debug, PartialEq, Eq, Structural)]
pub enum ColorError {
    /// After the leading `#`s, the text is not pairs of hex digits.
    NotHex,
    /// The hex digits do not make exactly three bytes.
    WrongLength,
}

/// The error of hex::decode, carried as an opaque value.
#[verifier::external_type_specification]
#[verifier::external_body]
pub struct ExFromHexError(hex::FromHexError);

/// The value of a hex digit of either case, or -1.
pub open spec fn hex_value(c: u8) -> int {
    if 48 <= c <= 57 {
        c - 48
    } else if 97 <= c <= 102 {
        c - 87
    } else if 65 <= c <= 70 {
        c - 55
    } else {
        -1
    }
}

/// Pairs of hex digits.
pub open spec fn is_hex_text(b: Seq<u8>) -> bool {
    &&& b.len() % 2 == 0
    &&& forall|i: int| 0 <= i < b.len() ==> hex_value(#[trigger] b[i]) >= 0
}

/// The bytes that pairs of hex digits spell, high digit first.
pub open spec fn hex_decoded(b: Seq<u8>) -> Seq<u8> {
    Seq::new((b.len() / 2) as nat, |i: int| (hex_value(b[2 * i]) * 16 + hex_value(b[2 * i + 1])) as u8)
}

/// The text without its leading `#` characters.
pub open spec fn without_hashes(b: Seq<u8>) -> Seq<u8>
    decreases b.len(),
{
    if b.len() > 0 && b[0] == 35u8 {
        without_hashes(b.drop_first())
    } else {
        b
    }
}

/// The color that a text names: leading `#`s dropped, then six hex digits.
pub open spec fn color_of(b: Seq<u8>) -> Result<RgbColor, ColorError> {
    let d = without_hashes(b);
    if !is_hex_text(d) {
        Err(ColorError::NotHex)
    } else if d.len() != 6 {
        Err(ColorError::WrongLength)
    } else {
        let v = hex_decoded(d);
        Ok(RgbColor { r: v[0], g: v[1], b: v[2] })
    }
}

/// A lowercase hex digit.
pub open spec fn hex_char(v: int) -> char {
    if v < 10 {
        ((v + 48) as u8) as char
    } else {
        ((v + 87) as u8) as char
    }
}

pub open spec fn hex_pair(b: u8) -> Seq<char> {
    seq![hex_char(b as int / 16), hex_char(b as int % 16)]
}

/// `#rrggbb` in lowercase.
pub open spec fn hex_text_of(c: RgbColor) -> Seq<char> {
    seq!['#'] + hex_pair(c.r) + hex_pair(c.g) + hex_pair(c.b)
}

/// One channel times `intensity` thousandths, rounded down, at most 255.
pub open spec fn scaled_channel(c: u8, intensity: int) -> u8 {
    if c * intensity / 1000 > 255 {
        255
    } else {
        (c * intensity / 1000) as u8
    }
}

pub open spec fn scaled_color(c: RgbColor, intensity: int) -> RgbColor {
    RgbColor {
        r: scaled_channel(c.r, intensity),
        g: scaled_channel(c.g, intensity),
        b: scaled_channel(c.b, intensity),
    }
}

/// Relies on hex::decode: pairs of hex digits of either case become bytes,
/// high digit first; an odd length or any other character is an error.
#[verifier::external_body]
fn decode_hex(digits: &[u8]) -> (r: Result<Vec<u8>, hex::FromHexError>)
    ensures
        r is Ok <==> is_hex_text(digits@),
        r is Ok ==> r->Ok_0@ == hex_decoded(digits@),
{
    hex::decode(digits)
}

/// The lowercase hex digit of `v` as text.
fn digit_text(v: u8) -> (r: &'static str)
    requires
        v < 16,
    ensures
        r@ == seq![hex_char(v as int)],
{
    if v == 0 {
        proof {
            reveal_strlit("0");
        }
        "0"
    } else if v == 1 {
        proof {
            reveal_strlit("1");
        }
        "1"
    } else if v == 2 {
        proof {
            reveal_strlit("2");
        }
        "2"
    } else if v == 3 {
        proof {
            reveal_strlit("3");
        }
        "3"
    } else if v == 4 {
        proof {
            reveal_strlit("4");
        }
        "4"
    } else if v == 5 {
        proof {
            reveal_strlit("5");
        }
        "5"
    } else if v == 6 {
        proof {
            reveal_strlit("6");
        }
        "6"
    } else if v == 7 {
        proof {
            reveal_strlit("7");
        }
        "7"
    } else if v == 8 {
        proof {
            reveal_strlit("8");
        }
        "8"
    } else if v == 9 {
        proof {
            reveal_strlit("9");
        }
        "9"
    } else if v == 10 {
        proof {
            reveal_strlit("a");
        }
        "a"
    } else if v == 11 {
        proof {
            reveal_strlit("b");
        }
        "b"
    } else if v == 12 {
        proof {
            reveal_strlit("c");
        }
        "c"
    } else if v == 13 {
        proof {
            reveal_strlit("d");
        }
        "d"
    } else if v == 14 {
        proof {
            reveal_strlit("e");
        }
        "e"
    } else {
        proof {
            reveal_strlit("f");
        }
        "f"
    }
}

/// Two lowercase hex digits, high first, appended to `text`.
fn push_hex_pair(text: &mut String, b: u8)
    ensures
        final(text)@ == old(text)@ + hex_pair(b),
{
    text.append(digit_text(b / 16));
    text.append(digit_text(b % 16));
    assert(final(text)@ =~= old(text)@ + hex_pair(b));
}

proof fn lemma_without_hashes(b: Seq<u8>, k: int)
    requires
        0 <= k <= b.len(),
        forall|i: int| 0 <= i < k ==> b[i] == 35u8,
        k == b.len() || b[k] != 35u8,
    ensures
        without_hashes(b) == b.subrange(k, b.len() as int),
    decreases k,
{
    if k == 0 {
        assert(b.subrange(0, b.len() as int) =~= b);
    } else {
        let t = b.drop_first();
        assert forall|i: int| 0 <= i < k - 1 implies t[i] == 35u8 by {
            assert(t[i] == b[i + 1]);
        }
        lemma_without_hashes(t, k - 1);
        assert(t.subrange(k - 1, t.len() as int) =~= b.subrange(k, b.len() as int));
    }
}

/// Reads a color written as hex digits after any number of `#`s.
pub fn parse_hex_color(hex_color: &str) -> (r: Result<RgbColor, ColorError>)
    ensures
        r == color_of(hex_color.spec_bytes()),
{
    let bytes = hex_color.as_bytes();
    let mut k: usize = 0;
    while k < bytes.len() && bytes[k] == 35u8
        invariant
            k <= bytes.len(),
            forall|i: int| 0 <= i < k ==> bytes[i] == 35u8,
        decreases bytes.len() - k,
    {
        k = k + 1;
    }
    let mut digits: Vec<u8> = Vec::new();
    let mut j: usize = k;
    while j < bytes.len()
        invariant
            k <= j <= bytes.len(),
            digits@ == bytes@.subrange(k as int, j as int),
        decreases bytes.len() - j,
    {
        digits.push(bytes[j]);
        j = j + 1;
        assert(digits@ =~= bytes@.subrange(k as int, j as int));
    }
    proof {
        lemma_without_hashes(bytes@, k as int);
    }
    match decode_hex(digits.as_slice()) {
        Err(_) => Err(ColorError::NotHex),
        Ok(v) => {
            if v.len() == 3 {
                Ok(RgbColor { r: v[0], g: v[1], b: v[2] })
            } else {
                Err(ColorError::WrongLength)
            }
        },
    }
}

/// The color that `hex_color` names; the text must name one.
pub fn hex_to_rgb(hex_color: &str) -> (r: RgbColor)
    requires
        color_of(hex_color.spec_bytes()) is Ok,
    ensures
        color_of(hex_color.spec_bytes()) == Ok::<RgbColor, ColorError>(r),
{
    parse_hex_color(hex_color).unwrap()
}

/// `#rrggbb`, lowercase.
pub fn rgb_to_hex(rgb_color: &RgbColor) -> (r: String)
    ensures
        r@ == hex_text_of(*rgb_color),
{
    let mut text = String::from_str("#");
    proof {
        reveal_strlit("#");
    }
    push_hex_pair(&mut text, rgb_color.r);
    push_hex_pair(&mut text, rgb_color.g);
    push_hex_pair(&mut text, rgb_color.b);
    assert(text@ =~= hex_text_of(*rgb_color));
    text
}

fn scale_channel(c: u8, intensity: u32) -> (r: u8)
    ensures
        r == scaled_channel(c, intensity as int),
{
    proof {
        assert(0 <= c * intensity <= 255 * (u32::MAX as int)) by (nonlinear_arith)
            requires
                0 <= c <= 255,
                0 <= intensity <= u32::MAX,
        ;
    }
    let v: u64 = c as u64 * intensity as u64 / 1000;
    if v > 255 {
        255
    } else {
        v as u8
    }
}

/// Each channel times `intensity` thousandths, rounded down and capped at 255.
pub fn color_change_intensity_rgb(rbg: &RgbColor, intensity: u32) -> (r: RgbColor)
    ensures
        r == scaled_color(*rbg, intensity as int),
{
    RgbColor {
        r: scale_channel(rbg.r, intensity),
        g: scale_channel(rbg.g, intensity),
        b: scale_channel(rbg.b, intensity),
    }
}

/// The color that `hex_color` names, scaled by `intensity` thousandths, as
/// `#rrggbb`.
pub fn color_change_intensity_hex(hex_color: &str, intensity: u32) -> (r: String)
    requires
        color_of(hex_color.spec_bytes()) is Ok,
    ensures
        r@ == hex_text_of(scaled_color(color_of(hex_color.spec_bytes())->Ok_0, intensity as int)),
{
    let rgb = hex_to_rgb(hex_color);
    let new_rgb = color_change_intensity_rgb(&rgb, intensity);
    rgb_to_hex(&new_rgb)
}

} // verus!
