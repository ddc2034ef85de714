use vstd::prelude::*;

use crate::text::{
    ascii_lower, chars_eq_str, chars_of, push_chars, push_str, slice_range, to_ascii_lowercase,
};

verus! {

/// The colour themes a user can ask for.
#[derive(Debug, Clone, Copy, PartialEq, Eq)]
pub enum ThemeName {
    Auto,
    Dark,
    Light,
    Solarized,
    Dracula,
}

/// A terminal colour.
#[derive(Debug, Clone, Copy, PartialEq, Eq)]
pub enum Color {
    Black,
    White,
    Red,
    DarkGrey,
    Yellow,
    Rgb { r: u8, g: u8, b: u8 },
}

/// The colours the reader paints with.
#[derive(Debug, Clone, Copy, PartialEq, Eq)]
pub struct Theme {
    /// Screen background; `None` keeps the terminal's own.
    pub bg: Option<Color>,
    pub word: Color,
    pub anchor: Color,
    pub dim: Color,
    pub header_fg: Color,
    pub header_bg: Color,
    pub progress_filled: Color,
    pub progress_empty: Color,
    pub picker_highlight_fg: Color,
    pub picker_highlight_bg: Color,
}

/// An RGB colour.
pub open spec fn rgb(r: u8, g: u8, b: u8) -> Color {
    Color::Rgb { r, g, b }
}

/// The dark theme: the terminal's own background, white text, red anchor.
pub open spec fn dark_theme() -> Theme {
    Theme {
        bg: None,
        word: Color::White,
        anchor: Color::Red,
        dim: Color::DarkGrey,
        header_fg: Color::Black,
        header_bg: Color::White,
        progress_filled: Color::White,
        progress_empty: Color::DarkGrey,
        picker_highlight_fg: Color::Black,
        picker_highlight_bg: Color::Yellow,
    }
}

/// The light theme: near-white paper, near-black text, dark red anchor.
pub open spec fn light_theme() -> Theme {
    Theme {
        bg: Some(rgb(250, 250, 250)),
        word: rgb(30, 30, 30),
        anchor: rgb(180, 0, 0),
        dim: rgb(140, 140, 140),
        header_fg: Color::White,
        header_bg: rgb(40, 40, 40),
        progress_filled: Color::Black,
        progress_empty: rgb(200, 200, 200),
        picker_highlight_fg: Color::White,
        picker_highlight_bg: rgb(0, 90, 180),
    }
}

/// The Solarized (dark) palette.
pub open spec fn solarized_theme() -> Theme {
    Theme {
        bg: Some(rgb(0, 43, 54)),
        word: rgb(131, 148, 150),
        anchor: rgb(203, 75, 22),
        dim: rgb(88, 110, 117),
        header_fg: rgb(0, 43, 54),
        header_bg: rgb(147, 161, 161),
        progress_filled: rgb(38, 139, 210),
        progress_empty: rgb(7, 54, 66),
        picker_highlight_fg: rgb(253, 246, 227),
        picker_highlight_bg: rgb(38, 139, 210),
    }
}

/// The Dracula palette.
pub open spec fn dracula_theme() -> Theme {
    Theme {
        bg: Some(rgb(40, 42, 54)),
        word: rgb(248, 248, 242),
        anchor: rgb(255, 121, 198),
        dim: rgb(98, 114, 164),
        header_fg: rgb(248, 248, 242),
        header_bg: rgb(68, 71, 90),
        progress_filled: rgb(189, 147, 249),
        progress_empty: rgb(68, 71, 90),
        picker_highlight_fg: rgb(40, 42, 54),
        picker_highlight_bg: rgb(80, 250, 123),
    }
}

/// The dark theme.
pub fn dark() -> (t: Theme)
    ensures
        t == dark_theme(),
{
    Theme {
        bg: None,
        word: Color::White,
        anchor: Color::Red,
        dim: Color::DarkGrey,
        header_fg: Color::Black,
        header_bg: Color::White,
        progress_filled: Color::White,
        progress_empty: Color::DarkGrey,
        picker_highlight_fg: Color::Black,
        picker_highlight_bg: Color::Yellow,
    }
}

/// The light theme.
pub fn light() -> (t: Theme)
    ensures
        t == light_theme(),
{
    Theme {
        bg: Some(Color::Rgb { r: 250, g: 250, b: 250 }),
        word: Color::Rgb { r: 30, g: 30, b: 30 },
        anchor: Color::Rgb { r: 180, g: 0, b: 0 },
        dim: Color::Rgb { r: 140, g: 140, b: 140 },
        header_fg: Color::White,
        header_bg: Color::Rgb { r: 40, g: 40, b: 40 },
        progress_filled: Color::Black,
        progress_empty: Color::Rgb { r: 200, g: 200, b: 200 },
        picker_highlight_fg: Color::White,
        picker_highlight_bg: Color::Rgb { r: 0, g: 90, b: 180 },
    }
}

/// The Solarized theme.
pub fn solarized() -> (t: Theme)
    ensures
        t == solarized_theme(),
{
    Theme {
        bg: Some(Color::Rgb { r: 0, g: 43, b: 54 }),  // base03
        word: Color::Rgb { r: 131, g: 148, b: 150 },  // base0
        anchor: Color::Rgb { r: 203, g: 75, b: 22 },  // orange
        dim: Color::Rgb { r: 88, g: 110, b: 117 },  // base01
        header_fg: Color::Rgb { r: 0, g: 43, b: 54 },  // base03
        header_bg: Color::Rgb { r: 147, g: 161, b: 161 },  // base1
        progress_filled: Color::Rgb { r: 38, g: 139, b: 210 },  // blue
        progress_empty: Color::Rgb { r: 7, g: 54, b: 66 },  // base02
        picker_highlight_fg: Color::Rgb { r: 253, g: 246, b: 227 },  // base3
        picker_highlight_bg: Color::Rgb { r: 38, g: 139, b: 210 },  // blue
    }
}

/// The Dracula theme.
pub fn dracula() -> (t: Theme)
    ensures
        t == dracula_theme(),
{
    Theme {
        bg: Some(Color::Rgb { r: 40, g: 42, b: 54 }),  // background
        word: Color::Rgb { r: 248, g: 248, b: 242 },  // foreground
        anchor: Color::Rgb { r: 255, g: 121, b: 198 },  // pink
        dim: Color::Rgb { r: 98, g: 114, b: 164 },  // comment
        header_fg: Color::Rgb { r: 248, g: 248, b: 242 },  // foreground
        header_bg: Color::Rgb { r: 68, g: 71, b: 90 },  // current line
        progress_filled: Color::Rgb { r: 189, g: 147, b: 249 },  // purple
        progress_empty: Color::Rgb { r: 68, g: 71, b: 90 },  // current line
        picker_highlight_fg: Color::Rgb { r: 40, g: 42, b: 54 },  // background
        picker_highlight_bg: Color::Rgb { r: 80, g: 250, b: 123 },  // green
    }
}

/// What follows the last `;` in `s` (all of `s` when there is none).
pub open spec fn last_segment(s: Seq<char>) -> Seq<char>
    decreases s.len(),
{
    if s.len() == 0 || s.last() == ';' {
        seq![]
    } else {
        last_segment(s.drop_last()).push(s.last())
    }
}

/// Whether `c` is an ASCII decimal digit.
pub open spec fn is_digit(c: char) -> bool {
    '0' <= c && c <= '9'
}

/// The number the decimal digits `s` spell.
pub open spec fn digits_value(s: Seq<char>) -> nat
    decreases s.len(),
{
    if s.len() == 0 {
        0
    } else {
        digits_value(s.drop_last()) * 10 + ((s.last() as u32) - ('0' as u32)) as nat
    }
}

/// `s` without a leading `+`.
pub open spec fn unsigned_digits(s: Seq<char>) -> Seq<char> {
    if s.len() > 0 && s[0] == '+' { s.drop_first() } else { s }
}

/// What `str::parse::<u32>` gives: an optional `+`, then one or more
/// decimal digits whose value fits in 32 bits.
pub open spec fn parse_u32(s: Seq<char>) -> Option<u32> {
    let body = unsigned_digits(s);
    if body.len() > 0 && (forall|i: int| 0 <= i < body.len() ==> is_digit(#[trigger] body[i]))
        && digits_value(body) <= u32::MAX {
        Some(digits_value(body) as u32)
    } else {
        None
    }
}

/// The theme a `COLORFGBG` value (`"fg;bg"`) asks for: light when the
/// background colour number is above 6, dark otherwise or when unset.
pub open spec fn background_theme(colorfgbg: Option<Seq<char>>) -> ThemeName {
    match colorfgbg {
        Some(v) => match parse_u32(last_segment(v)) {
            Some(bg) => if bg > 6 { ThemeName::Light } else { ThemeName::Dark },
            None => ThemeName::Dark,
        },
        None => ThemeName::Dark,
    }
}

/// What follows the last `;` in `s`.
fn last_segment_of(s: &Vec<char>) -> (r: Vec<char>)
    ensures
        r@ == last_segment(s@),
{
    let n = s.len();
    let mut i = n;
    assert(s@.take(n as int) =~= s@);
    assert(s@.subrange(n as int, n as int) =~= Seq::<char>::empty());
    while i > 0 && s[i - 1] != ';'
        invariant
            n == s@.len(),
            i <= n,
            last_segment(s@) == last_segment(s@.take(i as int)) + s@.subrange(i as int, n as int),
        decreases i,
    {
        proof {
            assert(s@.take(i as int).drop_last() =~= s@.take(i - 1));
            assert(s@.subrange(i - 1, n as int) =~= seq![s@[i - 1]] + s@.subrange(i as int, n as int));
            assert(last_segment(s@.take(i - 1)).push(s@[i - 1]) + s@.subrange(i as int, n as int)
                =~= last_segment(s@.take(i - 1)) + s@.subrange(i - 1, n as int));
        }
        i = i - 1;
    }
    proof {
        if i == 0 {
            assert(s@.take(0) =~= Seq::<char>::empty());
        } else {
            assert(s@.take(i as int).last() == s@[i - 1]);
        }
        assert(last_segment(s@.take(i as int)) =~= Seq::<char>::empty());
        assert(last_segment(s@) =~= s@.subrange(i as int, n as int));
    }
    slice_range(s.as_slice(), i, n)
}

/// Parses a decimal `u32` as `str::parse` does.
pub fn parse_u32_chars(s: &Vec<char>) -> (r: Option<u32>)
    ensures
        r == parse_u32(s@),
{
    let n = s.len();
    let start: usize = if n > 0 && s[0] == '+' { 1 } else { 0 };
    let ghost body = unsigned_digits(s@);
    assert(body =~= s@.subrange(start as int, n as int));
    if start >= n {
        return None;
    }
    // `acc` is the value of the digits so far, capped at 2^32
    let cap: u64 = 0x1_0000_0000;
    let mut acc: u64 = 0;
    let mut i = start;
    while i < n
        invariant
            start <= i <= n == s@.len(),
            body =~= s@.subrange(start as int, n as int),
            body == unsigned_digits(s@),
            cap == 0x1_0000_0000u64,
            forall|j: int| start <= j < i ==> is_digit(#[trigger] s@[j]),
            acc as nat == (if digits_value(s@.subrange(start as int, i as int)) < cap {
                digits_value(s@.subrange(start as int, i as int))
            } else {
                cap as nat
            }),
        decreases n - i,
    {
        let c = s[i];
        if !('0' <= c && c <= '9') {
            assert(body[i - start] == s@[i as int]);
            assert(!is_digit(body[i - start]));
            return None;
        }
        let d: u64 = (c as u32 - '0' as u32) as u64;
        let ghost prev = s@.subrange(start as int, i as int);
        let ghost next = s@.subrange(start as int, i + 1);
        assert(next.drop_last() =~= prev);
        assert(digits_value(next) == digits_value(prev) * 10 + d);
        let v: u64 = acc * 10 + d;
        proof {
            if digits_value(prev) >= cap {
                assert(digits_value(prev) * 10 + d >= cap) by (nonlinear_arith)
                    requires digits_value(prev) >= cap, d >= 0;
            }
        }
        acc = if v < cap { v } else { cap };
        i = i + 1;
    }
    proof {
        assert forall|j: int| 0 <= j < body.len() implies is_digit(#[trigger] body[j]) by {
            assert(body[j] == s@[start + j]);
        }
    }
    if acc <= 0xffff_ffff {
        Some(acc as u32)
    } else {
        None
    }
}

/// The theme a `COLORFGBG` value asks for (see [`background_theme`]).
pub fn detect_background(colorfgbg: Option<&str>) -> (r: ThemeName)
    ensures
        r == background_theme(match colorfgbg { Some(v) => Some(v@), None => None }),
{
    match colorfgbg {
        None => ThemeName::Dark,
        Some(v) => {
            let cs = chars_of(v);
            let seg = last_segment_of(&cs);
            match parse_u32_chars(&seg) {
                Some(bg) => if bg > 6 { ThemeName::Light } else { ThemeName::Dark },
                None => ThemeName::Dark,
            }
        },
    }
}

impl ThemeName {
    /// The theme this name stands for; `Auto` follows `colorfgbg`, the
    /// terminal's `COLORFGBG` value, if there is one.
    pub open spec fn spec_resolve(self, colorfgbg: Option<Seq<char>>) -> Theme {
        match self {
            ThemeName::Auto => if background_theme(colorfgbg) == ThemeName::Light { light_theme() } else { dark_theme() },
            ThemeName::Dark => dark_theme(),
            ThemeName::Light => light_theme(),
            ThemeName::Solarized => solarized_theme(),
            ThemeName::Dracula => dracula_theme(),
        }
    }

    /// The theme this name stands for; `Auto` picks light or dark from the
    /// terminal's `COLORFGBG` value `colorfgbg`.
    pub fn resolve(self, colorfgbg: Option<&str>) -> (t: Theme)
        ensures
            t == self.spec_resolve(match colorfgbg { Some(v) => Some(v@), None => None }),
            t.anchor != t.dim,
    {
        match self {
            ThemeName::Auto => {
                let name = detect_background(colorfgbg);
                match name {
                    ThemeName::Light => light(),
                    _ => dark(),
                }
            },
            ThemeName::Dark => dark(),
            ThemeName::Light => light(),
            ThemeName::Solarized => solarized(),
            ThemeName::Dracula => dracula(),
        }
    }
}

/// The message for a theme name that is not known.
pub open spec fn unknown_theme_message(lower: Seq<char>) -> Seq<char> {
    "unknown theme `"@ + lower + "` (expected auto, dark, light, solarized, or dracula)"@
}

/// The theme a name asks for, ignoring ASCII case, or the error message.
pub open spec fn spec_parse_theme(s: Seq<char>) -> Result<ThemeName, Seq<char>> {
    let l = ascii_lower(s);
    if l == "auto"@ {
        Ok(ThemeName::Auto)
    } else if l == "dark"@ {
        Ok(ThemeName::Dark)
    } else if l == "light"@ {
        Ok(ThemeName::Light)
    } else if l == "solarized"@ || l == "solar"@ {
        Ok(ThemeName::Solarized)
    } else if l == "dracula"@ {
        Ok(ThemeName::Dracula)
    } else {
        Err(unknown_theme_message(l))
    }
}

/// A parse result with its error message taken by view.
pub open spec fn result_view<T>(r: Result<T, String>) -> Result<T, Seq<char>> {
    match r {
        Ok(t) => Ok(t),
        Err(e) => Err(e@),
    }
}

/// Reads a theme name, ignoring ASCII case.
pub fn parse_theme(s: &str) -> (r: Result<ThemeName, String>)
    ensures
        result_view(r) == spec_parse_theme(s@),
{
    let l = to_ascii_lowercase(s);
    if chars_eq_str(l.as_slice(), "auto") {
        Ok(ThemeName::Auto)
    } else if chars_eq_str(l.as_slice(), "dark") {
        Ok(ThemeName::Dark)
    } else if chars_eq_str(l.as_slice(), "light") {
        Ok(ThemeName::Light)
    } else if chars_eq_str(l.as_slice(), "solarized") || chars_eq_str(l.as_slice(), "solar") {
        Ok(ThemeName::Solarized)
    } else if chars_eq_str(l.as_slice(), "dracula") {
        Ok(ThemeName::Dracula)
    } else {
        let mut m = String::new();
        push_str(&mut m, "unknown theme `");
        push_chars(&mut m, l.as_slice());
        push_str(&mut m, "` (expected auto, dark, light, solarized, or dracula)");
        Err(m)
    }
}

} // verus!
