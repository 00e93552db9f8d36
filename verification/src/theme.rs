//! The colour theme: the default colours and the `#rrggbb` overrides of the
//! configuration.

use vstd::prelude::*;
use vstd::utf8::{encode_utf8, is_char_boundary};
use crate::config::Colors;
use crate::text::{chars_of, string_from_chars, trim, trim_chars};

verus! {

/// A terminal colour (the colours of the drawing library, which the caller
/// maps one to one).
#[derive(Debug, Clone, Copy, PartialEq, Eq, Structural)]
pub enum Color {
    Reset,
    Black,
    Red,
    Green,
    Yellow,
    Blue,
    Magenta,
    Cyan,
    Gray,
    DarkGray,
    LightRed,
    LightGreen,
    LightYellow,
    LightBlue,
    LightMagenta,
    LightCyan,
    White,
    Rgb(u8, u8, u8),
    Indexed(u8),
}

/// The colours of each part of the screen.
#[derive(Debug, Clone, Copy, PartialEq, Eq, Structural)]
pub struct Theme {
    pub background: Color,
    pub surface: Color,
    pub border: Color,
    pub border_focused: Color,
    pub text: Color,
    pub text_dim: Color,
    pub selection_bg: Color,
    pub selection_fg: Color,
    pub active: Color,
    pub inactive: Color,
    pub failed: Color,
    pub filter_bar: Color,
    pub header: Color,
}

/// `s` without its leading `#` characters (`trim_start_matches('#')`).
pub open spec fn strip_hashes(s: Seq<char>) -> Seq<char>
    decreases s.len(),
{
    if s.len() > 0 && s[0] == '#' {
        strip_hashes(s.drop_first())
    } else {
        s
    }
}

/// The value of a hexadecimal digit byte (`to_digit(16)`).
pub open spec fn hex_digit(b: u8) -> Option<u8> {
    if 48 <= b && b <= 57 {
        Some((b - 48) as u8)
    } else if 97 <= b && b <= 102 {
        Some((b - 87) as u8)
    } else if 65 <= b && b <= 70 {
        Some((b - 55) as u8)
    } else {
        None
    }
}

/// `u8::from_str_radix(s, 16)` on a two-byte string: an optional `+` and
/// then hexadecimal digits.
pub open spec fn radix16_pair(b0: u8, b1: u8) -> Option<u8> {
    if b0 == 43 {
        hex_digit(b1)
    } else {
        match (hex_digit(b0), hex_digit(b1)) {
            (Some(h), Some(l)) => Some((16 * h + l) as u8),
            _ => None,
        }
    }
}

/// The bytes that `parse_hex` reads: the UTF-8 encoding of the text
/// trimmed of whitespace and then of leading `#`.
pub open spec fn hex_body(s: Seq<char>) -> Seq<u8> {
    encode_utf8(strip_hashes(trim(s)))
}

/// The colour a `[#]rrggbb` string gives: six bytes after trimming, read as
/// three two-byte hexadecimal numbers.
pub open spec fn spec_parse_hex(s: Seq<char>) -> Option<(u8, u8, u8)> {
    let b = hex_body(s);
    if b.len() != 6 {
        None
    } else {
        match (radix16_pair(b[0], b[1]), radix16_pair(b[2], b[3]), radix16_pair(b[4], b[5])) {
            (Some(r), Some(g), Some(bl)) => Some((r, g, bl)),
            _ => None,
        }
    }
}

/// The inputs on which the string slicing of `parse_hex` stays on
/// character boundaries: with six bytes, byte 2 starts a character, and so
/// does byte 4 when the first pair is a number.
pub open spec fn hex_sliceable(s: Seq<char>) -> bool {
    let b = hex_body(s);
    b.len() == 6 ==> (is_char_boundary(b, 2) && (radix16_pair(b[0], b[1]) is Some
        ==> is_char_boundary(b, 4)))
}

fn hex_digit_of(b: u8) -> (r: Option<u8>)
    ensures
        r == hex_digit(b),
{
    if 48 <= b && b <= 57 {
        Some(b - 48)
    } else if 97 <= b && b <= 102 {
        Some(b - 87)
    } else if 65 <= b && b <= 70 {
        Some(b - 55)
    } else {
        None
    }
}

fn parse_pair(b0: u8, b1: u8) -> (r: Option<u8>)
    ensures
        r == radix16_pair(b0, b1),
{
    if b0 == 43 {
        hex_digit_of(b1)
    } else {
        match (hex_digit_of(b0), hex_digit_of(b1)) {
            (Some(h), Some(l)) => Some(16 * h + l),
            _ => None,
        }
    }
}

fn strip_hash_chars(cs: Vec<char>) -> (r: Vec<char>)
    ensures
        r@ == strip_hashes(cs@),
{
    let mut i: usize = 0;
    assert(cs@.skip(0) =~= cs@);
    while i < cs.len() && cs[i] == '#'
        invariant
            i <= cs@.len(),
            strip_hashes(cs@) == strip_hashes(cs@.skip(i as int)),
        decreases cs@.len() - i,
    {
        assert(cs@.skip(i as int).drop_first() =~= cs@.skip(i + 1));
        i = i + 1;
    }
    let mut r: Vec<char> = Vec::new();
    let mut k = i;
    while k < cs.len()
        invariant
            i <= k <= cs@.len(),
            r@ == cs@.subrange(i as int, k as int),
        decreases cs@.len() - k,
    {
        r.push(cs[k]);
        k = k + 1;
        assert(r@ =~= cs@.subrange(i as int, k as int));
    }
    assert(r@ =~= cs@.skip(i as int));
    r
}

/// Reads a `#rrggbb` (or `rrggbb`) colour; surrounding whitespace and any
/// number of leading `#` are ignored.
pub fn parse_hex(s: &str) -> (r: Option<(u8, u8, u8)>)
    requires
        hex_sliceable(s@),
    ensures
        r == spec_parse_hex(s@),
{
    let cs = chars_of(s);
    let t = trim_chars(&cs);
    let body = strip_hash_chars(t);
    let text = string_from_chars(body.as_slice());
    let b = text.as_str().as_bytes();
    if b.len() != 6 {
        return None;
    }
    let r = parse_pair(b[0], b[1]);
    let g = parse_pair(b[2], b[3]);
    let bl = parse_pair(b[4], b[5]);
    match (r, g, bl) {
        (Some(r), Some(g), Some(bl)) => Some((r, g, bl)),
        _ => None,
    }
}

/// The colour an optional override gives: the parsed colour, else
/// `fallback`.
pub open spec fn resolved(hex: Option<String>, fallback: Color) -> Color {
    match hex {
        Some(s) => match spec_parse_hex(s@) {
            Some((r, g, b)) => Color::Rgb(r, g, b),
            None => fallback,
        },
        None => fallback,
    }
}

/// Whether an optional override can be read.
pub open spec fn readable(hex: Option<String>) -> bool {
    match hex {
        Some(s) => hex_sliceable(s@),
        None => true,
    }
}

fn resolve(hex: &Option<String>, fallback: Color) -> (c: Color)
    requires
        readable(*hex),
    ensures
        c == resolved(*hex, fallback),
{
    match hex {
        Some(s) => match parse_hex(s.as_str()) {
            Some((r, g, b)) => Color::Rgb(r, g, b),
            None => fallback,
        },
        None => fallback,
    }
}

/// Whether every override of `colors` can be read.
pub open spec fn colors_readable(c: Colors) -> bool {
    readable(c.background) && readable(c.surface) && readable(c.border) && readable(
        c.border_focused,
    ) && readable(c.text) && readable(c.text_dim) && readable(c.selection_bg) && readable(
        c.selection_fg,
    ) && readable(c.active) && readable(c.inactive) && readable(c.failed) && readable(
        c.filter_bar,
    ) && readable(c.header)
}

/// The theme that `Theme::from_colors` builds.
pub open spec fn theme_for(c: Colors) -> Theme {
    Theme {
        background: resolved(c.background, Color::Reset),
        surface: resolved(c.surface, Color::Black),
        border: resolved(c.border, Color::Blue),
        border_focused: resolved(c.border_focused, Color::Green),
        text: resolved(c.text, Color::White),
        text_dim: resolved(c.text_dim, Color::Gray),
        selection_bg: resolved(c.selection_bg, Color::DarkGray),
        selection_fg: resolved(c.selection_fg, Color::White),
        active: resolved(c.active, Color::Green),
        inactive: resolved(c.inactive, Color::Gray),
        failed: resolved(c.failed, Color::Red),
        filter_bar: resolved(c.filter_bar, Color::Yellow),
        header: resolved(c.header, Color::Blue),
    }
}

impl Theme {
    /// The theme with the given overrides; each colour that is absent or
    /// does not parse keeps its default: reset background, black surface,
    /// blue border, green focused border, white text, gray dim text, dark
    /// gray selection with white text, green active, gray inactive, red
    /// failed, yellow filter bar, blue headers.
    pub fn from_colors(colors: &Colors) -> (t: Theme)
        requires
            colors_readable(*colors),
        ensures
            t == theme_for(*colors),
            t.background == resolved(colors.background, Color::Reset),
            t.surface == resolved(colors.surface, Color::Black),
            t.border == resolved(colors.border, Color::Blue),
            t.border_focused == resolved(colors.border_focused, Color::Green),
            t.text == resolved(colors.text, Color::White),
            t.text_dim == resolved(colors.text_dim, Color::Gray),
            t.selection_bg == resolved(colors.selection_bg, Color::DarkGray),
            t.selection_fg == resolved(colors.selection_fg, Color::White),
            t.active == resolved(colors.active, Color::Green),
            t.inactive == resolved(colors.inactive, Color::Gray),
            t.failed == resolved(colors.failed, Color::Red),
            t.filter_bar == resolved(colors.filter_bar, Color::Yellow),
            t.header == resolved(colors.header, Color::Blue),
    {
        Theme {
            background: resolve(&colors.background, Color::Reset),
            surface: resolve(&colors.surface, Color::Black),
            border: resolve(&colors.border, Color::Blue),
            border_focused: resolve(&colors.border_focused, Color::Green),
            text: resolve(&colors.text, Color::White),
            text_dim: resolve(&colors.text_dim, Color::Gray),
            selection_bg: resolve(&colors.selection_bg, Color::DarkGray),
            selection_fg: resolve(&colors.selection_fg, Color::White),
            active: resolve(&colors.active, Color::Green),
            inactive: resolve(&colors.inactive, Color::Gray),
            failed: resolve(&colors.failed, Color::Red),
            filter_bar: resolve(&colors.filter_bar, Color::Yellow),
            header: resolve(&colors.header, Color::Blue),
        }
    }
}

} // verus!

verus! {

/// The lower-case hexadecimal digit for `d < 16`.
pub open spec fn hex_char(d: u8) -> char {
    if d < 10 {
        ((48 + d) as u8) as char
    } else {
        ((87 + d) as u8) as char
    }
}

/// `#rrggbb` with lower-case digits.
pub open spec fn hex_text(r: u8, g: u8, b: u8) -> Seq<char> {
    seq![
        '#',
        hex_char(r / 16),
        hex_char(r % 16),
        hex_char(g / 16),
        hex_char(g % 16),
        hex_char(b / 16),
        hex_char(b % 16),
    ]
}

proof fn lemma_hex_char(d: u8)
    requires
        d < 16,
    ensures
        hex_char(d) as u32 == (if d < 10 { 48 + d } else { 87 + d }),
        !crate::text::is_ws(hex_char(d)),
        hex_char(d) != '#',
        '\0' <= hex_char(d) <= '\u{7f}',
        hex_digit(hex_char(d) as u8) == Some(d),
{
}

/// Reading a colour written as `#rrggbb` gives the colour back.
pub proof fn lemma_parse_hex_roundtrip(r: u8, g: u8, b: u8)
    ensures
        hex_sliceable(hex_text(r, g, b)),
        spec_parse_hex(hex_text(r, g, b)) == Some((r, g, b)),
{
    let s = hex_text(r, g, b);
    lemma_hex_char(r / 16);
    lemma_hex_char(r % 16);
    lemma_hex_char(g / 16);
    lemma_hex_char(g % 16);
    lemma_hex_char(b / 16);
    lemma_hex_char(b % 16);
    assert(crate::text::trim_start(s) == s);
    assert(crate::text::trim_end(s) == s);
    let body = s.drop_first();
    assert(strip_hashes(s) == strip_hashes(body));
    assert(strip_hashes(body) == body);
    assert(vstd::utf8::is_ascii_chars(body));
    vstd::utf8::is_ascii_chars_encode_utf8(body);
    let bytes = encode_utf8(body);
    assert(bytes.len() == 6);
    assert(bytes[0] == body[0] as u8);
    assert(bytes[1] == body[1] as u8);
    assert(bytes[2] == body[2] as u8);
    assert(bytes[3] == body[3] as u8);
    assert(bytes[4] == body[4] as u8);
    assert(bytes[5] == body[5] as u8);
    vstd::utf8::encode_utf8_valid_utf8(body);
    vstd::utf8::is_char_boundary_iff_not_is_continuation_byte(bytes, 2);
    vstd::utf8::is_char_boundary_iff_not_is_continuation_byte(bytes, 4);
    assert(16 * (r / 16) + r % 16 == r);
    assert(16 * (g / 16) + g % 16 == g);
    assert(16 * (b / 16) + b % 16 == b);
}

} // verus!

verus! {

/// The upper-case hexadecimal digit for `d < 16`.
pub open spec fn hex_char_upper(d: u8) -> char {
    if d < 10 {
        ((48 + d) as u8) as char
    } else {
        ((55 + d) as u8) as char
    }
}

/// `#RRGGBB` with upper-case digits.
pub open spec fn hex_text_upper(r: u8, g: u8, b: u8) -> Seq<char> {
    seq![
        '#',
        hex_char_upper(r / 16),
        hex_char_upper(r % 16),
        hex_char_upper(g / 16),
        hex_char_upper(g % 16),
        hex_char_upper(b / 16),
        hex_char_upper(b % 16),
    ]
}

proof fn lemma_hex_char_upper(d: u8)
    requires
        d < 16,
    ensures
        !crate::text::is_ws(hex_char_upper(d)),
        hex_char_upper(d) != '#',
        '\0' <= hex_char_upper(d) <= '\u{7f}',
        hex_digit(hex_char_upper(d) as u8) == Some(d),
{
}

/// Hexadecimal digits read the same in either case: each of `0-9`, `a-f`
/// and `A-F` stands for its value, and no other byte is a digit.
pub proof fn lemma_hex_digit_values(b: u8)
    ensures
        48 <= b <= 57 ==> hex_digit(b) == Some((b - 48) as u8),
        97 <= b <= 102 ==> hex_digit(b) == Some((b - 87) as u8),
        65 <= b <= 70 ==> hex_digit(b) == Some((b - 55) as u8),
        !(48 <= b <= 57 || 97 <= b <= 102 || 65 <= b <= 70) ==> hex_digit(b) is None,
        forall|d: u8| d < 16 ==> #[trigger] hex_digit(hex_char_upper(d) as u8) == Some(d)
            && hex_digit(hex_char(d) as u8) == Some(d),
{
    assert forall|d: u8| d < 16 implies #[trigger] hex_digit(hex_char_upper(d) as u8) == Some(d)
        && hex_digit(hex_char(d) as u8) == Some(d) by {
        lemma_hex_char_upper(d);
        lemma_hex_char(d);
    }
}

/// Reading a colour written as `#RRGGBB` with upper-case digits gives the
/// colour back, as with lower-case digits.
pub proof fn lemma_parse_hex_upper_roundtrip(r: u8, g: u8, b: u8)
    ensures
        hex_sliceable(hex_text_upper(r, g, b)),
        spec_parse_hex(hex_text_upper(r, g, b)) == Some((r, g, b)),
{
    let s = hex_text_upper(r, g, b);
    lemma_hex_char_upper(r / 16);
    lemma_hex_char_upper(r % 16);
    lemma_hex_char_upper(g / 16);
    lemma_hex_char_upper(g % 16);
    lemma_hex_char_upper(b / 16);
    lemma_hex_char_upper(b % 16);
    assert(crate::text::trim_start(s) == s);
    assert(crate::text::trim_end(s) == s);
    let body = s.drop_first();
    assert(strip_hashes(s) == strip_hashes(body));
    assert(strip_hashes(body) == body);
    assert(vstd::utf8::is_ascii_chars(body));
    vstd::utf8::is_ascii_chars_encode_utf8(body);
    let bytes = encode_utf8(body);
    assert(bytes.len() == 6);
    assert(bytes[0] == body[0] as u8);
    assert(bytes[1] == body[1] as u8);
    assert(bytes[2] == body[2] as u8);
    assert(bytes[3] == body[3] as u8);
    assert(bytes[4] == body[4] as u8);
    assert(bytes[5] == body[5] as u8);
    vstd::utf8::encode_utf8_valid_utf8(body);
    vstd::utf8::is_char_boundary_iff_not_is_continuation_byte(bytes, 2);
    vstd::utf8::is_char_boundary_iff_not_is_continuation_byte(bytes, 4);
    assert(16 * (r / 16) + r % 16 == r);
    assert(16 * (g / 16) + g % 16 == g);
    assert(16 * (b / 16) + b % 16 == b);
}

} // verus!
