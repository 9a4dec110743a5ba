//! Colors: reading them, and tinting the gray disc with them.
//!
//! The disc is a gray map of a record's grooves. Any color of record is made by
//! tinting that one map, and each tinted disc is kept under a name of its own.

use vstd::prelude::*;

use crate::number;
use crate::text;

verus! {

/// A color by its red, green and blue parts.
pub type Rgb = (u8, u8, u8);

/// What takes the place of a color that cannot be read: a dark cool near-black.
pub open spec fn fallback_color() -> Rgb {
    (24, 24, 30)
}

/// The text that is left of a color once the white space around it and the
/// number signs in front of it are gone.
pub open spec fn color_digits(s: Seq<char>) -> Seq<char> {
    text::without_leading(text::trim_of(s), '#')
}

/// The color that six characters of hexadecimal text stand for.
pub open spec fn color_of(h: Seq<char>) -> Option<Rgb> {
    if h.len() != 6 {
        None
    } else {
        match (
            number::hex_pair_value(h[0], h[1]),
            number::hex_pair_value(h[2], h[3]),
            number::hex_pair_value(h[4], h[5]),
        ) {
            (Some(r), Some(g), Some(b)) => Some((r, g, b)),
            _ => None,
        }
    }
}

/// The color that `s` names, or the fallback.
pub open spec fn color_or_fallback(s: Seq<char>) -> Rgb {
    match color_of(color_digits(s)) {
        Some(rgb) => rgb,
        None => fallback_color(),
    }
}

/// Reads `#rrggbb` or `rrggbb`. Falls back to a dark cool near-black.
pub fn parse_hex(s: &str) -> (rgb: (u8, u8, u8))
    ensures
        rgb == color_or_fallback(s@),
{
    let trimmed = text::trim(s);
    let digits = text::trim_leading(trimmed.as_str(), '#');
    let h = text::chars_of(digits.as_str());
    if h.len() == 6 {
        if let (Some(r), Some(g), Some(b)) = (
            number::hex_pair(h[0], h[1]),
            number::hex_pair(h[2], h[3]),
            number::hex_pair(h[4], h[5]),
        ) {
            return (r, g, b);
        }
    }
    (24, 24, 30)
}

/// The six hexadecimal digits of a color.
pub open spec fn hex_color(rgb: Rgb) -> Seq<char> {
    number::hex_byte(rgb.0) + number::hex_byte(rgb.1) + number::hex_byte(rgb.2)
}

/// Appends the six hexadecimal digits of a color.
pub fn push_color(out: &mut String, rgb: Rgb)
    ensures
        final(out)@ == old(out)@ + hex_color(rgb),
{
    let ghost before = out@;
    number::push_hex(out, rgb.0);
    number::push_hex(out, rgb.1);
    number::push_hex(out, rgb.2);
    assert(out@ =~= before + hex_color(rgb));
}

/// A color as a source filter takes it.
pub open spec fn filter_color_of(rgb: Rgb) -> Seq<char> {
    "0x"@ + hex_color(rgb)
}

/// A color as a source filter takes it.
pub fn filter_color(rgb: Rgb) -> (r: String)
    ensures
        r@ == filter_color_of(rgb),
{
    let mut s = "0x".to_owned();
    push_color(&mut s, rgb);
    s
}

/// The filter that tints the gray disc: every part of the color is scaled by the
/// gray value over 140 and clipped to a byte.
pub open spec fn tint_filter_of(rgb: Rgb) -> Seq<char> {
    "geq=r='clip("@ + number::decimal(rgb.0 as nat) + "*r(X,Y)/140,0,255)':g='clip("@
        + number::decimal(rgb.1 as nat) + "*g(X,Y)/140,0,255)':b='clip("@ + number::decimal(
        rgb.2 as nat,
    ) + "*b(X,Y)/140,0,255)':a='alpha(X,Y)'"@
}

/// The filter that tints the gray disc.
pub fn tint_filter(rgb: Rgb) -> (r: String)
    ensures
        r@ == tint_filter_of(rgb),
{
    let mut s = "geq=r='clip(".to_owned();
    number::push_decimal(&mut s, rgb.0 as u128);
    s.append("*r(X,Y)/140,0,255)':g='clip(");
    number::push_decimal(&mut s, rgb.1 as u128);
    s.append("*g(X,Y)/140,0,255)':b='clip(");
    number::push_decimal(&mut s, rgb.2 as u128);
    s.append("*b(X,Y)/140,0,255)':a='alpha(X,Y)'");
    s
}

/// Where the disc of a color is kept. `sep` separates the parts of a path.
pub open spec fn disc_path_of(rgb: Rgb, sep: char) -> Seq<char> {
    "work"@.push(sep) + "disc_"@ + hex_color(rgb) + ".png"@
}

/// Where the disc of a color is kept. `sep` separates the parts of a path.
pub fn disc_path(rgb: Rgb, sep: char) -> (r: String)
    ensures
        r@ == disc_path_of(rgb, sep),
{
    let mut s = "work".to_owned();
    s.push(sep);
    s.append("disc_");
    push_color(&mut s, rgb);
    s.append(".png");
    s
}

proof fn lemma_hex_color_shape(rgb: Rgb)
    ensures
        hex_color(rgb).len() == 6,
        forall|i: int|
            0 <= i < 6 ==> ('0' <= #[trigger] hex_color(rgb)[i] <= '9' || 'a' <= hex_color(rgb)[i]
                <= 'f'),
        color_of(hex_color(rgb)) == Some(rgb),
{
    number::law_hex_round_trip(rgb.0);
    number::law_hex_round_trip(rgb.1);
    number::law_hex_round_trip(rgb.2);
}

/// Six digits that make a color are read, with or without a number sign.
proof fn lemma_digits_are_read(h: Seq<char>)
    requires
        h.len() == 6,
        color_of(h) is Some,
    ensures
        color_or_fallback(h) == color_of(h)->0,
        color_or_fallback(seq!['#'] + h) == color_of(h)->0,
{
    let s = seq!['#'] + h;
    assert(number::hex_value(h[0]) is Some && number::hex_value(h[5]) is Some);
    assert(h.last() == h[5]);
    assert(s.last() == h[5]);
    assert(s[0] == '#');
    text::lemma_trimmed(h);
    text::lemma_trimmed(s);
    assert(s.skip(1) =~= h);
    assert(text::without_leading(h, '#') == h);
}

/// The digits of a color in upper case.
pub open spec fn upper_color(rgb: Rgb) -> Seq<char> {
    hex_color(rgb).map_values(|c: char| number::upper_hex(c))
}

/// A color that is written as six digits of either case, with or without a
/// number sign, is read back as it was.
pub proof fn law_color_round_trip(rgb: Rgb)
    ensures
        color_or_fallback(hex_color(rgb)) == rgb,
        color_or_fallback(seq!['#'] + hex_color(rgb)) == rgb,
        color_or_fallback(upper_color(rgb)) == rgb,
        color_or_fallback(seq!['#'] + upper_color(rgb)) == rgb,
{
    lemma_hex_color_shape(rgb);
    let h = hex_color(rgb);
    let u = upper_color(rgb);
    lemma_digits_are_read(h);
    assert forall|i: int| 0 <= i < 6 implies number::hex_value(#[trigger] u[i])
        == number::hex_value(h[i]) by {
        number::law_hex_case_is_free(h[i]);
    }
    assert(color_of(u) == color_of(h));
    lemma_digits_are_read(u);
}

/// Discs of different colors are kept apart: no two colors share a file.
pub proof fn law_disc_paths_differ(a: Rgb, b: Rgb, sep: char)
    requires
        disc_path_of(a, sep) == disc_path_of(b, sep),
    ensures
        a == b,
{
    lemma_hex_color_shape(a);
    lemma_hex_color_shape(b);
    let head = "work"@.push(sep) + "disc_"@;
    let pa = disc_path_of(a, sep);
    let pb = disc_path_of(b, sep);
    let n = head.len() as int;
    assert(pa.subrange(n, n + 6) =~= hex_color(a));
    assert(pb.subrange(n, n + 6) =~= hex_color(b));
}

/// Six hexadecimal digits are read in pairs: the first pair is red, the second
/// green, the third blue.
pub proof fn law_color_pairs(h: Seq<char>)
    requires
        h.len() == 6,
        forall|i: int| 0 <= i < 6 ==> number::hex_value(#[trigger] h[i]) is Some,
    ensures
        ({
            let v = |i: int| number::hex_value(h[i])->0;
            let rgb = color_or_fallback(h);
            &&& rgb.0 == 16 * v(0) + v(1)
            &&& rgb.1 == 16 * v(2) + v(3)
            &&& rgb.2 == 16 * v(4) + v(5)
        }),
{
    assert(number::hex_value(h[0]) is Some && number::hex_value(h[1]) is Some);
    assert(number::hex_value(h[2]) is Some && number::hex_value(h[3]) is Some);
    assert(number::hex_value(h[4]) is Some && number::hex_value(h[5]) is Some);
    lemma_digits_are_read(h);
}

/// Text that is not six hexadecimal digits stands for the dark near-black.
pub proof fn law_other_text_falls_back(h: Seq<char>)
    requires
        h.len() > 0 ==> !text::is_white(h[0]) && !text::is_white(h.last()) && h[0] != '#',
        h.len() != 6 || exists|i: int| 0 <= i < 6 && number::hex_value(#[trigger] h[i]) is None,
    ensures
        color_or_fallback(h) == (24u8, 24u8, 30u8),
{
    text::lemma_trimmed(h);
    assert(color_digits(h) == h);
}

/// White space around a color does not matter, nor do number signs in front of it.
pub proof fn law_color_dress_is_ignored(before: Seq<char>, s: Seq<char>, after: Seq<char>)
    requires
        forall|i: int| 0 <= i < before.len() ==> text::is_white(#[trigger] before[i]),
        forall|i: int| 0 <= i < after.len() ==> text::is_white(#[trigger] after[i]),
        s.len() > 0,
        !text::is_white(s[0]),
        !text::is_white(s.last()),
    ensures
        color_or_fallback(before + s + after) == color_or_fallback(s),
        color_or_fallback(seq!['#'] + s) == color_or_fallback(s),
{
    text::law_trim_takes_white_only(before, s, after);
    text::lemma_trimmed(s);
    let t = seq!['#'] + s;
    assert(t.last() == s.last() && t[0] == '#');
    text::lemma_trimmed(t);
    assert(t.skip(1) =~= s);
}

/// The file of a disc is named by its color: red, green and blue in two digits each.
pub proof fn law_disc_path_names_the_color(rgb: Rgb, sep: char)
    ensures
        disc_path_of(rgb, sep) == "work"@ + seq![sep] + "disc_"@ + number::hex_byte(rgb.0)
            + number::hex_byte(rgb.1) + number::hex_byte(rgb.2) + ".png"@,
        filter_color_of(rgb) == "0x"@ + number::hex_byte(rgb.0) + number::hex_byte(rgb.1)
            + number::hex_byte(rgb.2),
{
    assert(disc_path_of(rgb, sep) =~= "work"@ + seq![sep] + "disc_"@ + number::hex_byte(rgb.0)
        + number::hex_byte(rgb.1) + number::hex_byte(rgb.2) + ".png"@);
    assert(filter_color_of(rgb) =~= "0x"@ + number::hex_byte(rgb.0) + number::hex_byte(rgb.1)
        + number::hex_byte(rgb.2));
}

/// Whatever is read as a color and written again as the name of a disc is the same
/// color: the file of a record is named by the digits that its form held.
pub proof fn law_disc_is_named_as_it_was_asked_for(
    rgb: Rgb,
    s: &str,
    read: Rgb,
    sep: char,
    path: String,
)
    requires
        s@ == seq!['#'] + hex_color(rgb),
        call_ensures(parse_hex, (s,), read),
        call_ensures(disc_path, (read, sep), path),
    ensures
        read == rgb,
        path@ == "work"@ + seq![sep] + "disc_"@ + number::hex_byte(rgb.0) + number::hex_byte(rgb.1)
            + number::hex_byte(rgb.2) + ".png"@,
{
    law_color_round_trip(rgb);
    law_disc_path_names_the_color(rgb, sep);
}

/// Reading a color gives its pairs of digits as red, green and blue, or the dark
/// near-black; writing one gives them back.
pub proof fn law_colors_are_read_and_written(
    s: &str,
    read: Rgb,
    rgb: Rgb,
    shade: String,
    tint: String,
)
    requires
        call_ensures(parse_hex, (s,), read),
        call_ensures(filter_color, (rgb,), shade),
        call_ensures(tint_filter, (rgb,), tint),
    ensures
        read == color_or_fallback(s@),
        shade@ == "0x"@ + hex_color(rgb),
        tint@ == tint_filter_of(rgb),
{
}

} // verus!
