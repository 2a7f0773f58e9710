//! The popup's colors, resolved from Herdr's `[theme]` settings the way Herdr
//! resolves its own palette.

use vstd::prelude::*;
use crate::text::{
    chars_of, split_char, split_char_exec, starts_with_exec,
    string_of, trim, trim_chars, views,
};

verus! {

/// A 24-bit color.
#[derive(Clone, Copy, Debug, PartialEq, Eq, Structural)]
pub struct Rgb {
    pub r: u8,
    pub g: u8,
    pub b: u8,
}

/// Whether a terminal background reads as light or dark.
#[derive(Clone, Copy, Debug, PartialEq, Eq, Structural)]
pub enum Appearance {
    Dark,
    Light,
}

/// Herdr's luminance of a color, scaled by 1000.
pub open spec fn luminance(c: Rgb) -> int {
    c.r * 299 + c.g * 587 + c.b * 114
}

impl Rgb {
    pub fn new(r: u8, g: u8, b: u8) -> (c: Rgb)
        ensures
            c == (Rgb { r, g, b }),
    {
        Rgb { r, g, b }
    }

    /// Herdr's own light/dark rule for a host terminal background.
    pub fn appearance(self) -> (a: Appearance)
        ensures
            a == if luminance(self) >= 128000 { Appearance::Light } else { Appearance::Dark },
    {
        let luminance = self.r as u32 * 299 + self.g as u32 * 587 + self.b as u32 * 114;
        if luminance >= 128_000 {
            Appearance::Light
        } else {
            Appearance::Dark
        }
    }
}

/// The colors Herdr paints its own popups and highlighted rows with.
/// `None` means the terminal default.
#[derive(Clone, Copy, Debug, PartialEq, Eq, Structural)]
pub struct PopupColors {
    pub background: Option<Rgb>,
    pub text: Option<Rgb>,
    pub active_row: Option<Rgb>,
}

impl Default for PopupColors {
    fn default() -> (c: PopupColors)
        ensures
            c == terminal_colors(),
    {
        PopupColors { background: None, text: None, active_row: None }
    }
}

/// The terminal's own colors.
pub open spec fn terminal_colors() -> PopupColors {
    PopupColors { background: None, text: None, active_row: None }
}

/// Colors given as red, green and blue of each part.
pub open spec fn colors(bg: (u8, u8, u8), text: (u8, u8, u8), row: (u8, u8, u8)) -> PopupColors {
    PopupColors {
        background: Some(Rgb { r: bg.0, g: bg.1, b: bg.2 }),
        text: Some(Rgb { r: text.0, g: text.1, b: text.2 }),
        active_row: Some(Rgb { r: row.0, g: row.1, b: row.2 }),
    }
}

impl PopupColors {
    pub fn rgb(background: Rgb, text: Rgb, active_row: Rgb) -> (c: PopupColors)
        ensures
            c == (PopupColors { background: Some(background), text: Some(text), active_row: Some(active_row) }),
    {
        PopupColors { background: Some(background), text: Some(text), active_row: Some(active_row) }
    }
}

/// `str::to_lowercase` of a string, as the standard library computes it.
pub uninterp spec fn lowercase(s: Seq<char>) -> Seq<char>;

/// Every character of `s` is ASCII.
pub open spec fn all_ascii(s: Seq<char>) -> bool {
    forall|i: int| 0 <= i < s.len() ==> (s[i] as u32) < 128
}

/// `char::to_ascii_lowercase`.
pub open spec fn ascii_lower(c: char) -> char {
    if 'A' <= c && c <= 'Z' {
        ((c as u32) + 32) as char
    } else {
        c
    }
}

/// The lowercase form of a text: ASCII text has `A`..`Z` lowered and every
/// other character kept; other text is whatever the standard library gives.
pub open spec fn lower_text(s: Seq<char>) -> Seq<char> {
    if all_ascii(s) {
        s.map_values(|c: char| ascii_lower(c))
    } else {
        lowercase(s)
    }
}

/// `str::to_lowercase`: the lowercase form by the Unicode `Lowercase` rules.
/// For ASCII text that lowers `A`..`Z` and keeps every other character; of
/// other text nothing is claimed beyond that the result is that function's.
#[verifier::external_body]
fn to_lowercase(s: &str) -> (r: String)
    ensures
        all_ascii(s@) ==> r@ == s@.map_values(|c: char| ascii_lower(c)),
        !all_ascii(s@) ==> r@ == lowercase(s@),
{
    s.to_lowercase()
}

/// A theme name with spaces and underscores turned into dashes.
pub open spec fn dashed(s: Seq<char>) -> Seq<char> {
    s.map_values(|c: char| if c == ' ' || c == '_' { '-' } else { c })
}

/// The built-in theme a (lowercased, dashed) name stands for.
pub open spec fn canonical(n: Seq<char>) -> Option<Seq<char>> {
    if n == "catppuccin"@ || n == "catppuccin-mocha"@ {
        Some("catppuccin"@)
    } else if n == "catppuccin-latte"@ || n == "latte"@ || n == "light"@ {
        Some("catppuccin-latte"@)
    } else if n == "terminal"@ {
        Some("terminal"@)
    } else if n == "tokyo-night"@ || n == "tokyonight"@ {
        Some("tokyo-night"@)
    } else if n == "tokyo-night-day"@ || n == "tokyo-day"@ || n == "tokyonight-day"@ {
        Some("tokyo-night-day"@)
    } else if n == "dracula"@ {
        Some("dracula"@)
    } else if n == "nord"@ {
        Some("nord"@)
    } else if n == "gruvbox"@ || n == "gruvbox-dark"@ {
        Some("gruvbox"@)
    } else if n == "gruvbox-light"@ {
        Some("gruvbox-light"@)
    } else if n == "one-dark"@ || n == "onedark"@ {
        Some("one-dark"@)
    } else if n == "one-light"@ || n == "onelight"@ {
        Some("one-light"@)
    } else if n == "solarized"@ || n == "solarized-dark"@ {
        Some("solarized"@)
    } else if n == "solarized-light"@ {
        Some("solarized-light"@)
    } else if n == "kanagawa"@ {
        Some("kanagawa"@)
    } else if n == "kanagawa-lotus"@ || n == "lotus"@ {
        Some("kanagawa-lotus"@)
    } else if n == "rose-pine"@ || n == "rosepine"@ {
        Some("rose-pine"@)
    } else if n == "rose-pine-dawn"@ || n == "rosepine-dawn"@ || n == "dawn"@ {
        Some("rose-pine-dawn"@)
    } else if n == "vesper"@ {
        Some("vesper"@)
    } else {
        None
    }
}

/// The built-in theme a configured name stands for.
pub open spec fn canonical_of(name: Seq<char>) -> Option<Seq<char>> {
    canonical(dashed(lower_text(name)))
}

/// Panel background, text and active row of a built-in theme.
pub open spec fn palette(c: Seq<char>) -> Option<PopupColors> {
    if c == "catppuccin"@ {
        Some(colors((24, 24, 37), (205, 214, 244), (30, 30, 46)))
    } else if c == "catppuccin-latte"@ {
        Some(colors((239, 241, 245), (76, 79, 105), (230, 233, 239)))
    } else if c == "terminal"@ {
        Some(terminal_colors())
    } else if c == "tokyo-night"@ {
        Some(colors((26, 27, 38), (192, 202, 245), (35, 38, 54)))
    } else if c == "tokyo-night-day"@ {
        Some(colors((225, 226, 231), (55, 96, 191), (210, 211, 218)))
    } else if c == "dracula"@ {
        Some(colors((40, 42, 54), (248, 248, 242), (55, 60, 82)))
    } else if c == "nord"@ {
        Some(colors((46, 52, 64), (236, 239, 244), (67, 76, 94)))
    } else if c == "gruvbox"@ {
        Some(colors((40, 40, 40), (235, 219, 178), (50, 49, 48)))
    } else if c == "gruvbox-light"@ {
        Some(colors((251, 241, 199), (60, 56, 54), (242, 229, 188)))
    } else if c == "one-dark"@ {
        Some(colors((40, 44, 52), (171, 178, 191), (49, 54, 64)))
    } else if c == "one-light"@ {
        Some(colors((250, 250, 250), (56, 58, 66), (216, 219, 226)))
    } else if c == "solarized"@ {
        Some(colors((0, 43, 54), (147, 161, 161), (22, 75, 87)))
    } else if c == "solarized-light"@ {
        Some(colors((253, 246, 227), (101, 123, 131), (238, 232, 213)))
    } else if c == "kanagawa"@ {
        Some(colors((31, 31, 40), (220, 215, 186), (54, 54, 70)))
    } else if c == "kanagawa-lotus"@ {
        Some(colors((242, 236, 188), (84, 84, 100), (213, 206, 163)))
    } else if c == "rose-pine"@ {
        Some(colors((25, 23, 36), (224, 222, 244), (38, 35, 58)))
    } else if c == "rose-pine-dawn"@ {
        Some(colors((250, 244, 237), (70, 66, 97), (227, 217, 207)))
    } else if c == "vesper"@ {
        Some(colors((26, 26, 26), (255, 255, 255), (16, 16, 16)))
    } else {
        None
    }
}

/// The colors of the built-in theme a configured name stands for.
pub open spec fn builtin_of(name: Seq<char>) -> Option<PopupColors> {
    match canonical_of(name) {
        Some(c) => palette(c),
        None => None,
    }
}

fn dash_exec(s: &[char]) -> (r: Vec<char>)
    ensures
        r@ == dashed(s@),
{
    let mut r: Vec<char> = Vec::new();
    let mut i: usize = 0;
    while i < s.len()
        invariant
            i <= s@.len(),
            r@ == dashed(s@.take(i as int)),
        decreases s@.len() - i,
    {
        let c = s[i];
        r.push(if c == ' ' || c == '_' { '-' } else { c });
        assert(dashed(s@.take(i + 1)) =~= dashed(s@.take(i as int)).push(if c == ' ' || c == '_' { '-' } else { c }));
        i = i + 1;
    }
    assert(s@.take(s@.len() as int) =~= s@);
    r
}

fn is(s: &[char], lit: &str) -> (b: bool)
    ensures
        b == (s@ == lit@),
{
    let l = chars_of(lit);
    crate::text::same_chars(s, l.as_slice())
}

/// The built-in theme a lowercased, dashed name stands for.
fn canonical_exec(n: &[char]) -> (r: Option<&'static str>)
    ensures
        match r {
            Some(c) => canonical(n@) == Some(c@),
            None => canonical(n@) is None,
        },
{
    if is(n, "catppuccin") || is(n, "catppuccin-mocha") {
        Some("catppuccin")
    } else if is(n, "catppuccin-latte") || is(n, "latte") || is(n, "light") {
        Some("catppuccin-latte")
    } else if is(n, "terminal") {
        Some("terminal")
    } else if is(n, "tokyo-night") || is(n, "tokyonight") {
        Some("tokyo-night")
    } else if is(n, "tokyo-night-day") || is(n, "tokyo-day") || is(n, "tokyonight-day") {
        Some("tokyo-night-day")
    } else if is(n, "dracula") {
        Some("dracula")
    } else if is(n, "nord") {
        Some("nord")
    } else if is(n, "gruvbox") || is(n, "gruvbox-dark") {
        Some("gruvbox")
    } else if is(n, "gruvbox-light") {
        Some("gruvbox-light")
    } else if is(n, "one-dark") || is(n, "onedark") {
        Some("one-dark")
    } else if is(n, "one-light") || is(n, "onelight") {
        Some("one-light")
    } else if is(n, "solarized") || is(n, "solarized-dark") {
        Some("solarized")
    } else if is(n, "solarized-light") {
        Some("solarized-light")
    } else if is(n, "kanagawa") {
        Some("kanagawa")
    } else if is(n, "kanagawa-lotus") || is(n, "lotus") {
        Some("kanagawa-lotus")
    } else if is(n, "rose-pine") || is(n, "rosepine") {
        Some("rose-pine")
    } else if is(n, "rose-pine-dawn") || is(n, "rosepine-dawn") || is(n, "dawn") {
        Some("rose-pine-dawn")
    } else if is(n, "vesper") {
        Some("vesper")
    } else {
        None
    }
}

/// The built-in theme a configured name stands for: lowercased, with spaces
/// and underscores read as dashes, aliases folded.
pub fn canonical_name(name: &str) -> (r: Option<&'static str>)
    ensures
        match r {
            Some(c) => canonical_of(name@) == Some(c@),
            None => canonical_of(name@) is None,
        },
{
    let lower = to_lowercase(name);
    let cs = chars_of(lower.as_str());
    let d = dash_exec(cs.as_slice());
    canonical_exec(d.as_slice())
}

fn rgb3(bg: (u8, u8, u8), text: (u8, u8, u8), row: (u8, u8, u8)) -> (c: PopupColors)
    ensures
        c == colors(bg, text, row),
{
    PopupColors::rgb(Rgb::new(bg.0, bg.1, bg.2), Rgb::new(text.0, text.1, text.2), Rgb::new(row.0, row.1, row.2))
}

/// The colors of a built-in theme, by its canonical name.
fn palette_exec(c: &str) -> (r: Option<PopupColors>)
    ensures
        r == palette(c@),
{
    let n = chars_of(c);
    let n = n.as_slice();
    if is(n, "catppuccin") {
        Some(rgb3((24, 24, 37), (205, 214, 244), (30, 30, 46)))
    } else if is(n, "catppuccin-latte") {
        Some(rgb3((239, 241, 245), (76, 79, 105), (230, 233, 239)))
    } else if is(n, "terminal") {
        Some(PopupColors::default())
    } else if is(n, "tokyo-night") {
        Some(rgb3((26, 27, 38), (192, 202, 245), (35, 38, 54)))
    } else if is(n, "tokyo-night-day") {
        Some(rgb3((225, 226, 231), (55, 96, 191), (210, 211, 218)))
    } else if is(n, "dracula") {
        Some(rgb3((40, 42, 54), (248, 248, 242), (55, 60, 82)))
    } else if is(n, "nord") {
        Some(rgb3((46, 52, 64), (236, 239, 244), (67, 76, 94)))
    } else if is(n, "gruvbox") {
        Some(rgb3((40, 40, 40), (235, 219, 178), (50, 49, 48)))
    } else if is(n, "gruvbox-light") {
        Some(rgb3((251, 241, 199), (60, 56, 54), (242, 229, 188)))
    } else if is(n, "one-dark") {
        Some(rgb3((40, 44, 52), (171, 178, 191), (49, 54, 64)))
    } else if is(n, "one-light") {
        Some(rgb3((250, 250, 250), (56, 58, 66), (216, 219, 226)))
    } else if is(n, "solarized") {
        Some(rgb3((0, 43, 54), (147, 161, 161), (22, 75, 87)))
    } else if is(n, "solarized-light") {
        Some(rgb3((253, 246, 227), (101, 123, 131), (238, 232, 213)))
    } else if is(n, "kanagawa") {
        Some(rgb3((31, 31, 40), (220, 215, 186), (54, 54, 70)))
    } else if is(n, "kanagawa-lotus") {
        Some(rgb3((242, 236, 188), (84, 84, 100), (213, 206, 163)))
    } else if is(n, "rose-pine") {
        Some(rgb3((25, 23, 36), (224, 222, 244), (38, 35, 58)))
    } else if is(n, "rose-pine-dawn") {
        Some(rgb3((250, 244, 237), (70, 66, 97), (227, 217, 207)))
    } else if is(n, "vesper") {
        Some(rgb3((26, 26, 26), (255, 255, 255), (16, 16, 16)))
    } else {
        None
    }
}

/// Panel background, text and active row of Herdr's built-in themes.
pub fn builtin(name: &str) -> (r: Option<PopupColors>)
    ensures
        r == builtin_of(name@),
{
    match canonical_name(name) {
        Some(c) => palette_exec(c),
        None => None,
    }
}

} // verus!

verus! {

/// A color override of `[theme.custom]`: the terminal's own color, or a color.
#[derive(Clone, Copy, Debug, PartialEq, Eq, Structural)]
pub enum ColorOverride {
    Terminal,
    Rgb(Rgb),
}

/// `char::to_digit(16)`.
pub open spec fn hex_val(c: char) -> Option<u8> {
    if '0' <= c && c <= '9' {
        Some((c as u32 - '0' as u32) as u8)
    } else if 'a' <= c && c <= 'f' {
        Some((c as u32 - 'a' as u32 + 10) as u8)
    } else if 'A' <= c && c <= 'F' {
        Some((c as u32 - 'A' as u32 + 10) as u8)
    } else {
        None
    }
}

/// The value of a hex digit known to be one.
pub open spec fn hex(c: char) -> int {
    match hex_val(c) {
        Some(v) => v as int,
        None => 0,
    }
}

/// Every character of `s` is an ASCII digit.
pub open spec fn all_digits(s: Seq<char>) -> bool {
    forall|i: int| 0 <= i < s.len() ==> '0' <= #[trigger] s[i] && s[i] <= '9'
}

/// The number a run of decimal digits spells.
pub open spec fn digits_value(d: Seq<char>) -> nat
    decreases d.len(),
{
    if d.len() == 0 {
        0
    } else {
        digits_value(d.drop_last()) * 10 + (d.last() as nat - '0' as nat) as nat
    }
}

/// `u8::from_str`: an optional `+`, then decimal digits of a value up to 255.
pub open spec fn u8_text(s: Seq<char>) -> Option<u8> {
    let d = if s.len() > 0 && s[0] == '+' { s.skip(1) } else { s };
    if d.len() == 0 || !all_digits(d) || digits_value(d) > 255 {
        None
    } else {
        Some(digits_value(d) as u8)
    }
}

/// The color a `#rrggbb` or `#rgb` override (without its `#`) gives.
pub open spec fn hex_color(h: Seq<char>) -> Option<ColorOverride> {
    if !(forall|i: int| 0 <= i < h.len() ==> #[trigger] hex_val(h[i]) is Some) {
        None
    } else if h.len() == 6 {
        Some(ColorOverride::Rgb(Rgb {
            r: (hex(h[0]) * 16 + hex(h[1])) as u8,
            g: (hex(h[2]) * 16 + hex(h[3])) as u8,
            b: (hex(h[4]) * 16 + hex(h[5])) as u8,
        }))
    } else if h.len() == 3 {
        Some(ColorOverride::Rgb(Rgb {
            r: (hex(h[0]) * 17) as u8,
            g: (hex(h[1]) * 17) as u8,
            b: (hex(h[2]) * 17) as u8,
        }))
    } else {
        None
    }
}

/// The color an `rgb(r, g, b)` override (between its parentheses) gives.
pub open spec fn rgb_color(inner: Seq<char>) -> Option<ColorOverride> {
    let parts = split_char(inner, ',');
    if parts.len() == 3 && u8_text(trim(parts[0])) is Some && u8_text(trim(parts[1])) is Some
        && u8_text(trim(parts[2])) is Some {
        Some(ColorOverride::Rgb(Rgb {
            r: u8_text(trim(parts[0])).unwrap(),
            g: u8_text(trim(parts[1])).unwrap(),
            b: u8_text(trim(parts[2])).unwrap(),
        }))
    } else {
        None
    }
}

/// The color forms Herdr accepts in `[theme.custom]`, trimmed and
/// lowercased: `reset`, `default`, `none` or `transparent`; `#rrggbb` or
/// `#rgb`; `rgb(r, g, b)`. Named palette colors are left to the base theme.
pub open spec fn override_text(v: Seq<char>) -> Option<ColorOverride> {
    if v == "reset"@ || v == "default"@ || v == "none"@ || v == "transparent"@ {
        Some(ColorOverride::Terminal)
    } else if v.len() > 0 && v[0] == '#' {
        hex_color(v.skip(1))
    } else if v.len() >= 5 && v.take(4) == "rgb("@ && v.last() == ')' {
        rgb_color(v.subrange(4, v.len() - 1))
    } else {
        None
    }
}

/// The override a configured value stands for.
pub open spec fn override_of(value: Seq<char>) -> Option<ColorOverride> {
    override_text(lower_text(trim(value)))
}

pub(crate) fn hex_digit(c: char) -> (r: Option<u8>)
    ensures
        r == hex_val(c),
{
    if '0' <= c && c <= '9' {
        Some((c as u32 - '0' as u32) as u8)
    } else if 'a' <= c && c <= 'f' {
        Some((c as u32 - 'a' as u32 + 10) as u8)
    } else if 'A' <= c && c <= 'F' {
        Some((c as u32 - 'A' as u32 + 10) as u8)
    } else {
        None
    }
}

fn hex_color_exec(h: &[char]) -> (r: Option<ColorOverride>)
    ensures
        r == hex_color(h@),
{
    let mut digits: Vec<u8> = Vec::new();
    let mut i: usize = 0;
    while i < h.len()
        invariant
            i <= h@.len(),
            digits@.len() == i,
            forall|j: int| 0 <= j < i ==> hex_val(#[trigger] h@[j]) == Some(digits@[j]),
        decreases h@.len() - i,
    {
        match hex_digit(h[i]) {
            Some(d) => digits.push(d),
            None => {
                assert(hex_val(h@[i as int]) is None);
                return None;
            },
        }
        i = i + 1;
    }
    assert forall|j: int| 0 <= j < h@.len() implies hex(h@[j]) == digits@[j] as int && digits@[j] < 16 by {
        assert(hex_val(h@[j]) == Some(digits@[j]));
    }
    if digits.len() == 6 {
        Some(ColorOverride::Rgb(Rgb::new(
            digits[0] * 16 + digits[1],
            digits[2] * 16 + digits[3],
            digits[4] * 16 + digits[5],
        )))
    } else if digits.len() == 3 {
        Some(ColorOverride::Rgb(Rgb::new(digits[0] * 17, digits[1] * 17, digits[2] * 17)))
    } else {
        None
    }
}

/// `u8::from_str`.
pub fn parse_u8(s: &[char]) -> (r: Option<u8>)
    ensures
        r == u8_text(s@),
{
    let start: usize = if s.len() > 0 && s[0] == '+' { 1 } else { 0 };
    let d = &s[start..s.len()];
    assert(d@ == if s@.len() > 0 && s@[0] == '+' { s@.skip(1) } else { s@ });
    if d.len() == 0 {
        return None;
    }
    let mut v: u32 = 0;
    let mut i: usize = 0;
    while i < d.len()
        invariant
            d@ == if s@.len() > 0 && s@[0] == '+' { s@.skip(1) } else { s@ },
            d@.len() > 0,
            i <= d@.len(),
            all_digits(d@.take(i as int)),
            v == digits_value(d@.take(i as int)),
            v <= 255,
        decreases d@.len() - i,
    {
        let c = d[i];
        assert(d@.take(i + 1).drop_last() =~= d@.take(i as int));
        if !('0' <= c && c <= '9') {
            assert(!all_digits(d@));
            return None;
        }
        v = v * 10 + (c as u32 - '0' as u32);
        i = i + 1;
        if v > 255 {
            proof { lemma_digits_prefix(d@, i as int); }
            return None;
        }
    }
    assert(d@.take(d@.len() as int) =~= d@);
    Some(v as u8)
}

/// A longer run of digits is worth at least as much as its prefix.
proof fn lemma_digits_prefix(d: Seq<char>, k: int)
    requires
        0 <= k <= d.len(),
        all_digits(d.take(k)),
    ensures
        all_digits(d) ==> digits_value(d.take(k)) <= digits_value(d),
    decreases d.len() - k,
{
    if k < d.len() && all_digits(d) {
        assert(d.take(k + 1).drop_last() =~= d.take(k));
        lemma_digits_prefix(d, k + 1);
    } else if k == d.len() {
        assert(d.take(k) =~= d);
    }
}

fn rgb_color_exec(inner: &[char]) -> (r: Option<ColorOverride>)
    ensures
        r == rgb_color(inner@),
{
    let parts = split_char_exec(inner, ',');
    if parts.len() != 3 {
        return None;
    }
    assert(views(parts@)[0] == parts@[0]@ && views(parts@)[1] == parts@[1]@ && views(parts@)[2] == parts@[2]@);
    let p0 = trim_chars(parts[0].as_slice());
    let p1 = trim_chars(parts[1].as_slice());
    let p2 = trim_chars(parts[2].as_slice());
    match (parse_u8(p0.as_slice()), parse_u8(p1.as_slice()), parse_u8(p2.as_slice())) {
        (Some(r), Some(g), Some(b)) => Some(ColorOverride::Rgb(Rgb::new(r, g, b))),
        _ => None,
    }
}

fn override_text_exec(v: &[char]) -> (r: Option<ColorOverride>)
    ensures
        r == override_text(v@),
{
    if is(v, "reset") || is(v, "default") || is(v, "none") || is(v, "transparent") {
        return Some(ColorOverride::Terminal);
    }
    let n = v.len();
    if n > 0 && v[0] == '#' {
        return hex_color_exec(&v[1..n]);
    }
    let open = chars_of("rgb(");
    proof { reveal_strlit("rgb("); }
    if n >= 5 && starts_with_exec(v, open.as_slice()) && v[n - 1] == ')' {
        assert(v@.take(4) =~= v@.subrange(0, 4));
        return rgb_color_exec(&v[4..n - 1]);
    }
    proof {
        if n >= 5 && v@.take(4) == "rgb("@ {
            assert(v@.subrange(0, 4) =~= v@.take(4));
        }
    }
    None
}

/// Parses the color forms Herdr accepts in `[theme.custom]`.
pub fn parse_override(value: &str) -> (r: Option<ColorOverride>)
    ensures
        r == override_of(value@),
{
    let cs = chars_of(value);
    let t = trim_chars(cs.as_slice());
    let ts = string_of(t.as_slice());
    let lower = to_lowercase(ts.as_str());
    let lc = chars_of(lower.as_str());
    override_text_exec(lc.as_slice())
}

/// A color slot after one configured override.
pub open spec fn slot_after(slot: Option<Rgb>, value: Option<String>) -> Option<Rgb> {
    match value {
        Some(v) => match override_of(v@) {
            Some(ColorOverride::Terminal) => None,
            Some(ColorOverride::Rgb(c)) => Some(c),
            None => slot,
        },
        None => slot,
    }
}

/// Applies one configured override to a color slot.
pub fn apply(slot: &mut Option<Rgb>, value: Option<&str>)
    ensures
        *final(slot) == match value {
            Some(v) => match override_of(v@) {
                Some(ColorOverride::Terminal) => None,
                Some(ColorOverride::Rgb(c)) => Some(c),
                None => *old(slot),
            },
            None => *old(slot),
        },
{
    match value {
        Some(v) => match parse_override(v) {
            Some(ColorOverride::Terminal) => *slot = None,
            Some(ColorOverride::Rgb(rgb)) => *slot = Some(rgb),
            None => {},
        },
        None => {},
    }
}

/// The overrides of one mode of `[theme.custom]`.
#[derive(Debug, PartialEq, Eq)]
pub struct ModeColors {
    pub panel_bg: Option<String>,
    pub text: Option<String>,
    pub active_row_bg: Option<String>,
}

/// Colors after the overrides of a mode.
pub open spec fn mode_applied(m: ModeColors, c: PopupColors) -> PopupColors {
    PopupColors {
        background: slot_after(c.background, m.panel_bg),
        text: slot_after(c.text, m.text),
        active_row: slot_after(c.active_row, m.active_row_bg),
    }
}

fn as_str_opt(o: &Option<String>) -> (r: Option<&str>)
    ensures
        match (o, r) {
            (Some(s), Some(t)) => t@ == s@,
            (None, None) => true,
            _ => false,
        },
{
    match o {
        Some(s) => Some(s.as_str()),
        None => None,
    }
}

impl ModeColors {
    pub fn apply_to(&self, colors: &mut PopupColors)
        ensures
            *final(colors) == mode_applied(*self, *old(colors)),
    {
        apply(&mut colors.background, as_str_opt(&self.panel_bg));
        apply(&mut colors.text, as_str_opt(&self.text));
        apply(&mut colors.active_row, as_str_opt(&self.active_row_bg));
    }
}

/// `[theme.custom]`: overrides for every mode, and for the dark and light modes.
#[derive(Debug, PartialEq, Eq)]
pub struct CustomColors {
    pub base: ModeColors,
    pub dark: Option<ModeColors>,
    pub light: Option<ModeColors>,
}

/// The `[theme]` section of Herdr's config.toml.
#[derive(Debug, PartialEq, Eq)]
pub struct ThemeConfig {
    pub name: Option<String>,
    pub auto_switch: bool,
    pub dark_name: Option<String>,
    pub light_name: Option<String>,
    pub custom: Option<CustomColors>,
}

impl Default for ModeColors {
    fn default() -> (m: ModeColors)
        ensures
            m.panel_bg is None && m.text is None && m.active_row_bg is None,
    {
        ModeColors { panel_bg: None, text: None, active_row_bg: None }
    }
}

impl Default for CustomColors {
    fn default() -> (c: CustomColors)
        ensures
            c.base.panel_bg is None && c.base.text is None && c.base.active_row_bg is None,
            c.dark is None && c.light is None,
    {
        CustomColors { base: ModeColors::default(), dark: None, light: None }
    }
}

impl Default for ThemeConfig {
    /// The theme of a config without a `[theme]` section.
    fn default() -> (t: ThemeConfig)
        ensures
            t.name is None && !t.auto_switch && t.dark_name is None && t.light_name is None,
            t.custom is None,
    {
        ThemeConfig { name: None, auto_switch: false, dark_name: None, light_name: None, custom: None }
    }
}

/// The palette a name, or else a fallback, gives.
pub open spec fn base_colors(name: Option<String>, fallback: Seq<char>) -> PopupColors {
    match name {
        Some(n) if builtin_of(n@) is Some => builtin_of(n@).unwrap(),
        _ => match builtin_of(fallback) {
            Some(c) => c,
            None => terminal_colors(),
        },
    }
}

/// The popup colors of a theme, the way Herdr resolves its palette: with
/// `auto_switch`, the dark or light theme by the host's appearance (dark
/// when unknown) and that mode's overrides; else the named theme; unknown
/// names fall back to catppuccin (latte when light). Overrides for every mode
/// apply first, then those of the mode.
pub open spec fn resolved(t: ThemeConfig, appearance: Option<Appearance>) -> PopupColors {
    let light = t.auto_switch && appearance == Some(Appearance::Light);
    let name = if !t.auto_switch { t.name } else if light { t.light_name } else { t.dark_name };
    let fallback = if light { "catppuccin-latte"@ } else { "catppuccin"@ };
    let mode = match t.custom {
        Some(c) if t.auto_switch => if light { c.light } else { c.dark },
        _ => None,
    };
    let base = base_colors(name, fallback);
    let with_base = match t.custom {
        Some(c) => mode_applied(c.base, base),
        None => base,
    };
    match mode {
        Some(m) => mode_applied(m, with_base),
        None => with_base,
    }
}

impl ThemeConfig {
    pub fn follows_host_appearance(&self) -> (b: bool)
        ensures
            b == self.auto_switch,
    {
        self.auto_switch
    }

    /// Resolves the popup colors the way Herdr resolves its palette.
    pub fn resolve(&self, appearance: Option<Appearance>) -> (c: PopupColors)
        ensures
            c == resolved(*self, appearance),
    {
        let light = self.auto_switch && match appearance {
            Some(Appearance::Light) => true,
            _ => false,
        };
        let name = if !self.auto_switch {
            &self.name
        } else if light {
            &self.light_name
        } else {
            &self.dark_name
        };
        let fallback = if light { "catppuccin-latte" } else { "catppuccin" };
        let named = match name {
            Some(n) => builtin(n.as_str()),
            None => None,
        };
        let mut colors = match named {
            Some(c) => c,
            None => match builtin(fallback) {
                Some(c) => c,
                None => PopupColors::default(),
            },
        };
        if let Some(custom) = &self.custom {
            custom.base.apply_to(&mut colors);
            if self.auto_switch {
                let mode = if light { &custom.light } else { &custom.dark };
                if let Some(m) = mode {
                    m.apply_to(&mut colors);
                }
            }
        }
        colors
    }
}

} // verus!
