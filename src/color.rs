use vstd::prelude::*;
use crate::text::{digit, hex_digits, dec_spec, push_dec, string_of};

verus! {

/// An RGBA color with 8-bit channels.
#[derive(Clone, Copy, Debug, PartialEq, Eq, Structural)]
pub struct Color {
    pub r: u8,
    pub g: u8,
    pub b: u8,
    pub a: u8,
}

/// Twice the HSL luminance of a color, scaled to 0..=510: `max + min` of its channels.
pub open spec fn lum2(c: Color) -> int {
    let mx = if c.r >= c.g && c.r >= c.b { c.r } else if c.g >= c.b { c.g } else { c.b };
    let mn = if c.r <= c.g && c.r <= c.b { c.r } else if c.g <= c.b { c.g } else { c.b };
    mx as int + mn as int
}

/// A color is light when its HSL luminance `(max + min) / 510` exceeds `2 / 5`.
pub fn is_light(c: &Color) -> (r: bool)
    ensures
        r == (5 * lum2(*c) > 1020),
{
    let mx: u8 = if c.r >= c.g && c.r >= c.b { c.r } else if c.g >= c.b { c.g } else { c.b };
    let mn: u8 = if c.r <= c.g && c.r <= c.b { c.r } else if c.g <= c.b { c.g } else { c.b };
    (mx as u32 + mn as u32) * 5 > 1020
}

/// Two lower-case hexadecimal digits of a byte.
pub open spec fn hex2(v: u8) -> Seq<char> {
    seq![hex_digits()[(v / 16) as int], hex_digits()[(v % 16) as int]]
}

/// Hundredths of the fraction `a / 255`, rounded to nearest.
pub open spec fn alpha_hundredths(a: u8) -> int {
    (200 * a as int + 255) / 510
}

/// The fraction `a / 255` with two decimals.
pub open spec fn alpha_fraction(a: u8) -> Seq<char> {
    let h = alpha_hundredths(a);
    if h >= 100 {
        seq!['1', '.', '0', '0']
    } else {
        seq!['0', '.', hex_digits()[h / 10], hex_digits()[h % 10]]
    }
}

/// CSS form of a color: `#rrggbb` when opaque, else `rgba(r, g, b, f)`
/// with the alpha as a fraction with two decimals.
pub open spec fn css_spec(c: Color) -> Seq<char> {
    if c.a == 255 {
        seq!['#'] + hex2(c.r) + hex2(c.g) + hex2(c.b)
    } else {
        seq!['r', 'g', 'b', 'a', '('] + dec_spec(c.r as nat) + seq![',', ' '] + dec_spec(c.g as nat)
            + seq![',', ' '] + dec_spec(c.b as nat) + seq![',', ' '] + alpha_fraction(c.a)
            + seq![')']
    }
}

fn push_hex2(out: &mut Vec<char>, v: u8)
    ensures
        final(out)@ == old(out)@ + hex2(v),
{
    let ghost start = out@;
    out.push(digit(v / 16));
    out.push(digit(v % 16));
    assert(out@ =~= start + hex2(v));
}

fn push_sep(out: &mut Vec<char>)
    ensures
        final(out)@ == old(out)@ + seq![',', ' '],
{
    let ghost start = out@;
    out.push(',');
    out.push(' ');
    assert(out@ =~= start + seq![',', ' ']);
}

/// Writes a color as CSS.
pub fn css(c: &Color) -> (r: String)
    ensures
        r@ == css_spec(*c),
{
    let mut out: Vec<char> = Vec::new();
    if c.a == 255 {
        out.push('#');
        push_hex2(&mut out, c.r);
        push_hex2(&mut out, c.g);
        push_hex2(&mut out, c.b);
        assert(out@ =~= css_spec(*c));
    } else {
        let ghost s0 = out@;
        out.push('r');
        out.push('g');
        out.push('b');
        out.push('a');
        out.push('(');
        assert(out@ =~= seq!['r', 'g', 'b', 'a', '(']);
        push_dec(&mut out, c.r as usize);
        push_sep(&mut out);
        push_dec(&mut out, c.g as usize);
        push_sep(&mut out);
        push_dec(&mut out, c.b as usize);
        push_sep(&mut out);
        let ghost s1 = out@;
        let h: u32 = (200 * c.a as u32 + 255) / 510;
        if h >= 100 {
            out.push('1');
            out.push('.');
            out.push('0');
            out.push('0');
        } else {
            out.push('0');
            out.push('.');
            out.push(digit((h / 10) as u8));
            out.push(digit((h % 10) as u8));
        }
        assert(out@ =~= s1 + alpha_fraction(c.a));
        out.push(')');
        assert(out@ =~= css_spec(*c));
    }
    string_of(&out)
}

/// `a * percent / 100`, rounded to nearest and capped at 255.
pub open spec fn scaled_alpha(a: u8, percent: u32) -> int {
    let v = (2 * (a as int) * (percent as int) + 100) / 200;
    if v > 255 { 255 } else { v }
}

/// The color with its alpha scaled by `percent / 100`.
pub open spec fn alpha_spec(c: Color, percent: u32) -> Color {
    Color { r: c.r, g: c.g, b: c.b, a: scaled_alpha(c.a, percent) as u8 }
}

/// The color with its alpha scaled by `percent / 100`; red, green and blue are kept.
pub fn alpha(color: &Color, percent: u32) -> (r: Color)
    ensures
        r.r == color.r,
        r.g == color.g,
        r.b == color.b,
        r.a == scaled_alpha(color.a, percent),
        r == alpha_spec(*color, percent),
{
    let a64: u64 = color.a as u64;
    let p64: u64 = percent as u64;
    assert(a64 * p64 <= 255 * 0xffff_ffff) by (nonlinear_arith)
        requires
            a64 <= 255,
            p64 <= 0xffff_ffff,
    ;
    let x: u64 = a64 * p64;
    assert(2 * (color.a as int) * (percent as int) == 2 * (x as int)) by (nonlinear_arith)
        requires
            x == a64 * p64,
            a64 == color.a,
            p64 == percent,
    ;
    let v: u64 = (2 * x + 100) / 200;
    let a: u8 = if v > 255 { 255 } else { v as u8 };
    Color { r: color.r, g: color.g, b: color.b, a }
}

} // verus!
