//! Colors as the theme files and the terminal give them: channel bytes, and
//! the 256-colour ANSI palette.
//!
//! A colour here is three channel bytes and an alpha.  The alpha is a byte
//! (`a / 255`), or the text of a CSS `rgba()` alpha that is read as a
//! floating-point number where colours are drawn.
use vstd::prelude::*;
use crate::text::{
    chars_of, has_prefix_at, split_bounds, split_on, strip_prefixes, strip_suffix_char, trim, trim_chars,
};

verus! {

/// The alpha of a colour.
#[derive(Debug)]
pub enum Alpha {
    /// `a / 255`.
    Byte(u8),
    /// The text of a CSS alpha component.
    Text(String),
}

/// A colour: red, green and blue bytes and an alpha.
#[derive(Debug)]
pub struct Color {
    pub r: u8,
    pub g: u8,
    pub b: u8,
    pub alpha: Alpha,
}

/// An alpha as plain values.
pub enum AlphaView {
    Byte(u8),
    Text(Seq<char>),
}

/// A colour as plain values.
pub struct ColorView {
    pub r: u8,
    pub g: u8,
    pub b: u8,
    pub alpha: AlphaView,
}

impl View for Color {
    type V = ColorView;

    open spec fn view(&self) -> ColorView {
        ColorView {
            r: self.r,
            g: self.g,
            b: self.b,
            alpha: match self.alpha {
                Alpha::Byte(a) => AlphaView::Byte(a),
                Alpha::Text(t) => AlphaView::Text(t@),
            },
        }
    }
}

/// An opaque colour.
pub open spec fn opaque(r: int, g: int, b: int) -> ColorView {
    ColorView { r: r as u8, g: g as u8, b: b as u8, alpha: AlphaView::Byte(255) }
}

/// Fully transparent black.
pub open spec fn transparent() -> ColorView {
    ColorView { r: 0, g: 0, b: 0, alpha: AlphaView::Byte(0) }
}

impl Color {
    /// An opaque colour from its channels.
    pub fn rgb(r: u8, g: u8, b: u8) -> (c: Color)
        ensures
            c@ == opaque(r as int, g as int, b as int),
    {
        Color { r, g, b, alpha: Alpha::Byte(255) }
    }

    /// Fully transparent black.
    pub fn transparent() -> (c: Color)
        ensures
            c@ == transparent(),
    {
        Color { r: 0, g: 0, b: 0, alpha: Alpha::Byte(0) }
    }
}

/// The 16 basic ANSI colours (VGA-style).
pub open spec fn ansi16(i: int) -> (int, int, int) {
    if i == 0 { (0, 0, 0) }
    else if i == 1 { (128, 0, 0) }
    else if i == 2 { (0, 128, 0) }
    else if i == 3 { (128, 128, 0) }
    else if i == 4 { (0, 0, 128) }
    else if i == 5 { (128, 0, 128) }
    else if i == 6 { (0, 128, 128) }
    else if i == 7 { (192, 192, 192) }
    else if i == 8 { (128, 128, 128) }
    else if i == 9 { (255, 0, 0) }
    else if i == 10 { (0, 255, 0) }
    else if i == 11 { (255, 255, 0) }
    else if i == 12 { (0, 0, 255) }
    else if i == 13 { (255, 0, 255) }
    else if i == 14 { (0, 255, 255) }
    else { (255, 255, 255) }
}

/// `n * 255 / d` rounded to the nearest integer (ties cannot occur for the
/// divisors used here).
pub open spec fn scaled(n: int, d: int) -> int {
    (2 * n * 255 + d) / (2 * d)
}

/// The channels of ANSI colour `index`: the 16 basic colours, then the
/// 6×6×6 cube with levels `c / 5` of full scale, then the 24-step gray ramp
/// with levels `g / 23` of full scale.
pub open spec fn ansi_rgb(index: int) -> (int, int, int) {
    if index < 16 {
        ansi16(index)
    } else if index < 232 {
        let i = index - 16;
        (scaled((i / 36) % 6, 5), scaled((i / 6) % 6, 5), scaled(i % 6, 5))
    } else {
        let g = scaled(index - 232, 23);
        (g, g, g)
    }
}

/// The opaque colour of an ANSI palette index.
pub open spec fn ansi_color(index: u8) -> ColorView {
    let (r, g, b) = ansi_rgb(index as int);
    opaque(r, g, b)
}

/// The colour of ANSI palette entry `index`.
pub fn ansi_to_rgba(index: u8) -> (c: Color)
    ensures
        c@ == ansi_color(index),
{
    if index < 16 {
        let (r, g, b): (u8, u8, u8) = match index {
            0 => (0, 0, 0),
            1 => (128, 0, 0),
            2 => (0, 128, 0),
            3 => (128, 128, 0),
            4 => (0, 0, 128),
            5 => (128, 0, 128),
            6 => (0, 128, 128),
            7 => (192, 192, 192),
            8 => (128, 128, 128),
            9 => (255, 0, 0),
            10 => (0, 255, 0),
            11 => (255, 255, 0),
            12 => (0, 0, 255),
            13 => (255, 0, 255),
            14 => (0, 255, 255),
            _ => (255, 255, 255),
        };
        return Color::rgb(r, g, b);
    }
    if index < 232 {
        let i: u8 = index - 16;
        let r: u8 = (i / 36) % 6;
        let g: u8 = (i / 6) % 6;
        let b: u8 = i % 6;
        assert(scaled(r as int, 5) == r * 51) by (nonlinear_arith) requires r <= 5;
        assert(scaled(g as int, 5) == g * 51) by (nonlinear_arith) requires g <= 5;
        assert(scaled(b as int, 5) == b * 51) by (nonlinear_arith) requires b <= 5;
        return Color::rgb(r * 51, g * 51, b * 51);
    }
    let g: u32 = (index - 232) as u32;
    let v: u32 = (2 * g * 255 + 23) / 46;
    assert(v <= 255) by (nonlinear_arith) requires g <= 23, v == (2 * g * 255 + 23) / 46;
    Color::rgb(v as u8, v as u8, v as u8)
}

/// The channels xterm gives palette entry `i`: its 16 standard colours,
/// the 6×6×6 cube with levels 0, 95, 135, 175, 215, 255, and the gray
/// ramp 8, 18, …, 238.
pub open spec fn xterm_rgb(i: int) -> (int, int, int) {
    if i < 16 {
        if i == 0 { (0, 0, 0) }
        else if i == 1 { (205, 0, 0) }
        else if i == 2 { (0, 205, 0) }
        else if i == 3 { (205, 205, 0) }
        else if i == 4 { (0, 0, 238) }
        else if i == 5 { (205, 0, 205) }
        else if i == 6 { (0, 205, 205) }
        else if i == 7 { (229, 229, 229) }
        else if i == 8 { (127, 127, 127) }
        else if i == 9 { (255, 0, 0) }
        else if i == 10 { (0, 255, 0) }
        else if i == 11 { (255, 255, 0) }
        else if i == 12 { (92, 92, 255) }
        else if i == 13 { (255, 0, 255) }
        else if i == 14 { (0, 255, 255) }
        else { (255, 255, 255) }
    } else if i < 232 {
        let n = i - 16;
        let level = |v: int| if v == 0 { 0int } else { v * 40 + 55 };
        (level(n / 36), level((n % 36) / 6), level(n % 6))
    } else {
        let v = (i - 232) * 10 + 8;
        (v, v, v)
    }
}

/// The channels of an indexed terminal colour, as the emulator's palette
/// maps them.
pub fn indexed_to_rgb(i: u8) -> (r: (u8, u8, u8))
    ensures
        (r.0 as int, r.1 as int, r.2 as int) == xterm_rgb(i as int),
{
    if i < 16 {
        match i {
            0 => (0, 0, 0),
            1 => (205, 0, 0),
            2 => (0, 205, 0),
            3 => (205, 205, 0),
            4 => (0, 0, 238),
            5 => (205, 0, 205),
            6 => (0, 205, 205),
            7 => (229, 229, 229),
            8 => (127, 127, 127),
            9 => (255, 0, 0),
            10 => (0, 255, 0),
            11 => (255, 255, 0),
            12 => (92, 92, 255),
            13 => (255, 0, 255),
            14 => (0, 255, 255),
            _ => (255, 255, 255),
        }
    } else if i < 232 {
        let n: u8 = i - 16;
        let r: u8 = n / 36;
        let g: u8 = (n % 36) / 6;
        let b: u8 = n % 6;
        let sr: u8 = if r == 0 { 0 } else { r * 40 + 55 };
        let sg: u8 = if g == 0 { 0 } else { g * 40 + 55 };
        let sb: u8 = if b == 0 { 0 } else { b * 40 + 55 };
        (sr, sg, sb)
    } else {
        let gray: u8 = i - 232;
        let v: u8 = gray * 10 + 8;
        (v, v, v)
    }
}

/// Why a colour or theme could not be resolved.
#[derive(Debug)]
pub struct ResolveError(pub String);

/// `#rrggbb` or `#rrggbbaa`.
pub const HEX_RE: &'static str = "^#([0-9a-fA-F]{2})([0-9a-fA-F]{2})([0-9a-fA-F]{2})([0-9a-fA-F]{2})?$";
/// `#rgb` or `#rgba`.
pub const SHORT_HEX_RE: &'static str = "^#([0-9a-fA-F])([0-9a-fA-F])([0-9a-fA-F])([0-9a-fA-F])?$";

/// What the anchored hex patterns capture in `text` when their digit groups
/// are `w` digits wide: the text must be `#`, three groups of `w` hex digits
/// and an optional fourth, and nothing more. Group 0 is the whole text, then
/// the span of each digit group; the fourth is `None` when it is absent.
/// Every character of a match is ASCII, so byte spans are character spans.
pub open spec fn hex_pattern_captures(text: Seq<char>, w: nat) -> Option<Seq<Option<(usize, usize)>>> {
    let n = text.len();
    if (n == 1 + 3 * w || n == 1 + 4 * w) && text[0] == '#' && forall|i: int|
        1 <= i < n ==> #[trigger] hex_value(text[i]) is Some {
        Some(
            seq![
                Some((0usize, n as usize)),
                Some((1usize, (1 + w) as usize)),
                Some(((1 + w) as usize, (1 + 2 * w) as usize)),
                Some(((1 + 2 * w) as usize, (1 + 3 * w) as usize)),
                if n == 1 + 4 * w { Some(((1 + 3 * w) as usize, n as usize)) } else { None },
            ],
        )
    } else {
        None
    }
}

/// The spans of a list of optional spans, as it came back from a match.
pub open spec fn spans_match(r: Option<Vec<Option<(usize, usize)>>>, expected: Option<Seq<Option<(usize, usize)>>>) -> bool {
    match expected {
        Some(groups) => r matches Some(v) && v@ == groups,
        None => r is None,
    }
}

/// Matches `text` against one of the two hex colour patterns with
/// `regex_lite` (`Regex::new`, then `Regex::captures`) and returns the byte
/// span of every group. Both patterns compile, are anchored at both ends
/// (`$` is the end of the text) and have five groups counting the whole
/// match; the contract says what they capture: [`hex_pattern_captures`]
/// with two-digit groups for [`HEX_RE`] and one-digit groups for
/// [`SHORT_HEX_RE`].
#[verifier::external_body]
fn captures(pattern: &str, text: &str) -> (r: Option<Vec<Option<(usize, usize)>>>)
    requires
        pattern@ == HEX_RE@ || pattern@ == SHORT_HEX_RE@,
    ensures
        pattern@ == HEX_RE@ ==> spans_match(r, hex_pattern_captures(text@, 2)),
        pattern@ == SHORT_HEX_RE@ ==> spans_match(r, hex_pattern_captures(text@, 1)),
{
    let re = match regex_lite::Regex::new(pattern) {
        Ok(re) => re,
        Err(_) => return None,
    };
    re.captures(text).map(|c| (0..c.len()).map(|i| c.get(i).map(|m| (m.start(), m.end()))).collect())
}

/// The value of a hexadecimal digit.
pub open spec fn hex_value(c: char) -> Option<int> {
    if '0' <= c <= '9' {
        Some(c as int - '0' as int)
    } else if 'a' <= c <= 'f' {
        Some(c as int - 'a' as int + 10)
    } else if 'A' <= c <= 'F' {
        Some(c as int - 'A' as int + 10)
    } else {
        None
    }
}

/// The text of capture group `k`, if it took part and its span lies in `s`.
pub open spec fn group_text(s: Seq<char>, caps: Seq<Option<(usize, usize)>>, k: int) -> Option<Seq<char>> {
    if 0 <= k < caps.len() && caps[k] is Some {
        let (a, b) = caps[k]->0;
        if a <= b <= s.len() { Some(s.subrange(a as int, b as int)) } else { None }
    } else {
        None
    }
}

/// The byte a group stands for: one digit `d` means `dd` (short form), two
/// digits are read as they are.
pub open spec fn group_byte(t: Seq<char>, doubled: bool) -> Option<int> {
    if doubled {
        if t.len() == 1 && hex_value(t[0]) is Some { Some(17 * hex_value(t[0])->0) } else { None }
    } else {
        if t.len() == 2 && hex_value(t[0]) is Some && hex_value(t[1]) is Some {
            Some(16 * hex_value(t[0])->0 + hex_value(t[1])->0)
        } else {
            None
        }
    }
}

pub open spec fn invalid_hex(s: Seq<char>) -> Seq<char> {
    "Invalid hex color: "@ + s
}

/// The colour a hex match describes: groups 1–3 are red, green and blue,
/// group 4 (optional) the alpha byte, opaque without it.
pub open spec fn hex_from_groups(s: Seq<char>, caps: Seq<Option<(usize, usize)>>, doubled: bool) -> Result<ColorView, Seq<char>> {
    let r = match group_text(s, caps, 1) { Some(t) => group_byte(t, doubled), None => None };
    let g = match group_text(s, caps, 2) { Some(t) => group_byte(t, doubled), None => None };
    let b = match group_text(s, caps, 3) { Some(t) => group_byte(t, doubled), None => None };
    let a = match group_text(s, caps, 4) { Some(t) => group_byte(t, doubled), None => Some(255int) };
    if r is Some && g is Some && b is Some && a is Some {
        Ok(ColorView { r: r->0 as u8, g: g->0 as u8, b: b->0 as u8, alpha: AlphaView::Byte(a->0 as u8) })
    } else {
        Err(invalid_hex(s))
    }
}

/// The colour of a hex colour text: the short form when the short pattern
/// matches, else the long form, else an error.
pub open spec fn hex_color(s: Seq<char>) -> Result<ColorView, Seq<char>> {
    match hex_pattern_captures(s, 1) {
        Some(c) => hex_from_groups(s, c, true),
        None => match hex_pattern_captures(s, 2) {
            Some(c) => hex_from_groups(s, c, false),
            None => Err(invalid_hex(s)),
        },
    }
}

/// A colour or an error message, as plain values.
pub open spec fn color_result(r: Result<Color, ResolveError>) -> Result<ColorView, Seq<char>> {
    match r {
        Ok(c) => Ok(c@),
        Err(e) => Err(e.0@),
    }
}

fn hex_digit(c: char) -> (r: Option<u8>)
    ensures
        match hex_value(c) {
            Some(v) => r == Some(v as u8),
            None => r is None,
        },
{
    if c >= '0' && c <= '9' {
        Some((c as u32 - '0' as u32) as u8)
    } else if c >= 'a' && c <= 'f' {
        Some((c as u32 - 'a' as u32 + 10) as u8)
    } else if c >= 'A' && c <= 'F' {
        Some((c as u32 - 'A' as u32 + 10) as u8)
    } else {
        None
    }
}

fn group_value(s: &Vec<char>, caps: &Vec<Option<(usize, usize)>>, k: usize, doubled: bool, absent: Option<u8>) -> (r: Option<u8>)
    ensures
        match group_text(s@, caps@, k as int) {
            Some(t) => match group_byte(t, doubled) {
                Some(v) => r == Some(v as u8),
                None => r is None,
            },
            None => r == absent,
        },
{
    if k >= caps.len() {
        return absent;
    }
    let (a, b) = match caps[k] {
        Some(span) => span,
        None => return absent,
    };
    if a > b || b > s.len() {
        return absent;
    }
    let ghost t = s@.subrange(a as int, b as int);
    if doubled {
        if b - a != 1 {
            return None;
        }
        assert(t[0] == s@[a as int]);
        match hex_digit(s[a]) {
            Some(d) => Some(17 * d),
            None => None,
        }
    } else {
        if b - a != 2 {
            return None;
        }
        assert(t[0] == s@[a as int] && t[1] == s@[a + 1]);
        match (hex_digit(s[a]), hex_digit(s[a + 1])) {
            (Some(h), Some(l)) => Some(16 * h + l),
            _ => None,
        }
    }
}

/// The colour described by the capture groups of a hex colour match on
/// `hex`: red, green, blue and the optional alpha, each one digit doubled
/// (`doubled`, the `#rgb` form) or two digits.
pub fn color_from_hex_groups(hex: &str, caps: &Vec<Option<(usize, usize)>>, doubled: bool) -> (r: Result<Color, ResolveError>)
    ensures
        color_result(r) == hex_from_groups(hex@, caps@, doubled),
{
    let s = chars_of(hex);
    let r = group_value(&s, caps, 1, doubled, None);
    let g = group_value(&s, caps, 2, doubled, None);
    let b = group_value(&s, caps, 3, doubled, None);
    let a = group_value(&s, caps, 4, doubled, Some(255));
    match (r, g, b, a) {
        (Some(r), Some(g), Some(b), Some(a)) => Ok(Color { r, g, b, alpha: Alpha::Byte(a) }),
        _ => Err(ResolveError(String::from_str("Invalid hex color: ").concat(hex))),
    }
}

/// Parse a `#rgb`, `#rgba`, `#rrggbb` or `#rrggbbaa` colour.
pub fn parse_hex(hex: &str) -> (r: Result<Color, ResolveError>)
    ensures
        color_result(r) == hex_color(hex@),
{
    match captures(SHORT_HEX_RE, hex) {
        Some(c) => color_from_hex_groups(hex, &c, true),
        None => match captures(HEX_RE, hex) {
            Some(c) => color_from_hex_groups(hex, &c, false),
            None => Err(ResolveError(String::from_str("Invalid hex color: ").concat(hex))),
        },
    }
}

/// The value of a run of decimal digits.
pub open spec fn digits_value(d: Seq<char>) -> int
    decreases d.len(),
{
    if d.len() == 0 {
        0
    } else {
        digits_value(d.drop_last()) * 10 + (d.last() as int - '0' as int)
    }
}

/// A non-empty run of ASCII decimal digits.
pub open spec fn is_digits(d: Seq<char>) -> bool {
    d.len() > 0 && forall|i: int| 0 <= i < d.len() ==> '0' <= #[trigger] d[i] <= '9'
}

/// The byte a text denotes as `u8`'s `FromStr` reads it: an optional `+`
/// then decimal digits, with a value that fits in a byte.
pub open spec fn u8_text(s: Seq<char>) -> Option<u8> {
    let d = if s.len() > 0 && s[0] == '+' { s.drop_first() } else { s };
    if is_digits(d) && digits_value(d) <= 255 {
        Some(digits_value(d) as u8)
    } else {
        None
    }
}

/// The message of the error `u8`'s `FromStr` gives for a text it rejects.
pub uninterp spec fn parse_int_error(s: Seq<char>) -> Seq<char>;

/// Reads a byte with `str::parse::<u8>`.  It succeeds exactly on an
/// optional `+` followed by decimal digits of value at most 255, as the
/// documentation of `u8::from_str_radix` states; the failure message is the
/// error's `Display` text, claimed only to depend on the input.
#[verifier::external_body]
pub(crate) fn parse_u8(s: &str) -> (r: Result<u8, String>)
    ensures
        match u8_text(s@) {
            Some(v) => r matches Ok(x) && x == v,
            None => r matches Err(m) && m@ == parse_int_error(s@),
        },
{
    s.parse::<u8>().map_err(|e| e.to_string())
}

/// Collects characters into a `String` with `FromIterator<char>`.
#[verifier::external_body]
pub(crate) fn string_from_chars(v: &Vec<char>) -> (r: String)
    ensures
        r@ == v@,
{
    v.iter().collect()
}

/// What is left of a CSS colour once the `rgba(` / `rgb(` prefixes and the
/// closing parentheses are stripped.
pub open spec fn css_inner(s: Seq<char>) -> Seq<char> {
    strip_suffix_char(strip_prefixes(strip_prefixes(s, "rgba("@), "rgb("@), ')')
}

/// The comma-separated components of a CSS colour, trimmed.
pub open spec fn css_parts(s: Seq<char>) -> Seq<Seq<char>> {
    split_on(css_inner(s), ',').map_values(|p: Seq<char>| trim(p))
}

/// The colour of an `rgb(r, g, b)` or `rgba(r, g, b, a)` text: at least
/// three components, each of the first three a byte; the fourth, if any,
/// is the alpha text, else the colour is opaque.
pub open spec fn css_color(s: Seq<char>) -> Result<ColorView, Seq<char>> {
    let parts = css_parts(s);
    if parts.len() < 3 {
        Err("Invalid rgb/rgba: "@ + s)
    } else if u8_text(parts[0]) is None {
        Err(parse_int_error(parts[0]))
    } else if u8_text(parts[1]) is None {
        Err(parse_int_error(parts[1]))
    } else if u8_text(parts[2]) is None {
        Err(parse_int_error(parts[2]))
    } else {
        Ok(ColorView {
            r: u8_text(parts[0])->0,
            g: u8_text(parts[1])->0,
            b: u8_text(parts[2])->0,
            alpha: if parts.len() > 3 { AlphaView::Text(parts[3]) } else { AlphaView::Byte(255) },
        })
    }
}

fn skip_prefixes(v: &Vec<char>, pos: usize, p: &Vec<char>) -> (r: usize)
    requires
        pos <= v@.len(),
        p@.len() > 0,
    ensures
        pos <= r <= v@.len(),
        v@.skip(r as int) == strip_prefixes(v@.skip(pos as int), p@),
{
    let vl = v.len();
    let mut at = pos;
    while has_prefix_at(v, at, p)
        invariant
            vl == v@.len(),
            pos <= at <= v@.len(),
            p@.len() > 0,
            strip_prefixes(v@.skip(at as int), p@) == strip_prefixes(v@.skip(pos as int), p@),
        decreases v@.len() - at,
    {
        proof {
            let t = v@.skip(at as int);
            assert(t.take(p@.len() as int) =~= v@.subrange(at as int, at + p@.len()));
            assert(t.skip(p@.len() as int) =~= v@.skip(at + p@.len()));
        }
        at = at + p.len();
    }
    proof {
        let t = v@.skip(at as int);
        if p@.len() <= t.len() {
            assert(t.take(p@.len() as int) =~= v@.subrange(at as int, at + p@.len()));
        }
    }
    at
}

fn skip_trailing(v: &Vec<char>, lo: usize, c: char) -> (r: usize)
    requires
        lo <= v@.len(),
    ensures
        lo <= r <= v@.len(),
        v@.subrange(lo as int, r as int) == strip_suffix_char(v@.skip(lo as int), c),
{
    let mut end = v.len();
    assert(v@.subrange(lo as int, end as int) =~= v@.skip(lo as int));
    while end > lo && v[end - 1] == c
        invariant
            lo <= end <= v@.len(),
            strip_suffix_char(v@.subrange(lo as int, end as int), c) == strip_suffix_char(v@.skip(lo as int), c),
        decreases end - lo,
    {
        proof {
            let t = v@.subrange(lo as int, end as int);
            assert(t.drop_last() =~= v@.subrange(lo as int, end - 1));
        }
        end = end - 1;
    }
    end
}

/// Parse an `rgb(...)` / `rgba(...)` colour.
pub fn parse_css_rgba(s: &str) -> (r: Result<Color, ResolveError>)
    ensures
        color_result(r) == css_color(s@),
{
    let v = chars_of(s);
    let pa = chars_of("rgba(");
    let pb = chars_of("rgb(");
    proof {
        reveal_strlit("rgba(");
        reveal_strlit("rgb(");
    }
    let p1 = skip_prefixes(&v, 0, &pa);
    assert(v@.skip(0) =~= v@);
    let p2 = skip_prefixes(&v, p1, &pb);
    let end = skip_trailing(&v, p2, ')');
    let mut inner: Vec<char> = Vec::new();
    let mut k: usize = p2;
    while k < end
        invariant
            p2 <= k <= end <= v@.len(),
            inner@ == v@.subrange(p2 as int, k as int),
        decreases end - k,
    {
        inner.push(v[k]);
        k = k + 1;
        assert(inner@ =~= v@.subrange(p2 as int, k as int));
    }
    assert(inner@ == css_inner(s@));
    let bounds = split_bounds(&inner, ',');
    let ghost parts = css_parts(s@);
    if bounds.len() < 3 {
        return Err(ResolveError(String::from_str("Invalid rgb/rgba: ").concat(s)));
    }
    let t0 = string_from_chars(&trim_chars(&inner, bounds[0].0, bounds[0].1));
    let t1 = string_from_chars(&trim_chars(&inner, bounds[1].0, bounds[1].1));
    let t2 = string_from_chars(&trim_chars(&inner, bounds[2].0, bounds[2].1));
    assert(t0@ == parts[0] && t1@ == parts[1] && t2@ == parts[2]);
    let r = match parse_u8(t0.as_str()) {
        Ok(x) => x,
        Err(m) => return Err(ResolveError(m)),
    };
    let g = match parse_u8(t1.as_str()) {
        Ok(x) => x,
        Err(m) => return Err(ResolveError(m)),
    };
    let b = match parse_u8(t2.as_str()) {
        Ok(x) => x,
        Err(m) => return Err(ResolveError(m)),
    };
    let alpha = if bounds.len() > 3 {
        let t3 = string_from_chars(&trim_chars(&inner, bounds[3].0, bounds[3].1));
        assert(t3@ == parts[3]);
        Alpha::Text(t3)
    } else {
        Alpha::Byte(255)
    };
    Ok(Color { r, g, b, alpha })
}

} // verus!
