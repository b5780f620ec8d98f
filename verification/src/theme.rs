//! Color themes and the terminal-background heuristic that picks one. The
//! theme is an explicit value handed to whoever paints; the host owns any
//! process-wide storage for it and reads the environment hint.

use vstd::prelude::*;

verus! {

/// Light or dark rendering.
#[derive(Clone, Copy, PartialEq, Eq, Structural, Debug)]
pub enum ThemeKind {
    Light,
    Dark,
}

/// The named colors the renderer distinguishes; the host maps them onto
/// its terminal library's palette.
#[derive(Clone, Copy, PartialEq, Eq, Structural, Debug)]
pub enum UiColor {
    Black,
    DarkGrey,
    Grey,
    White,
    Blue,
    Green,
    DarkGreen,
}

/// One color per role the renderer paints.
#[derive(Clone, Copy, PartialEq, Eq, Structural, Debug)]
pub struct Theme {
    pub accent: UiColor,
    pub success: UiColor,
    pub checkbox_selected: UiColor,
    pub checkbox_unselected: UiColor,
    pub item_selected_text: UiColor,
    pub item_unselected_text: UiColor,
    pub footer: UiColor,
    pub header_title: UiColor,
    pub header_hint: UiColor,
    pub list_alt1: UiColor,
    pub list_alt2: UiColor,
}

/// The palette for light terminal backgrounds.
pub open spec fn spec_light_theme() -> Theme {
    Theme {
        accent: UiColor::Blue,
        success: UiColor::Green,
        checkbox_selected: UiColor::DarkGreen,
        checkbox_unselected: UiColor::DarkGrey,
        item_selected_text: UiColor::Black,
        item_unselected_text: UiColor::Black,
        footer: UiColor::Blue,
        header_title: UiColor::Blue,
        header_hint: UiColor::DarkGrey,
        list_alt1: UiColor::Black,
        list_alt2: UiColor::DarkGrey,
    }
}

/// The palette for dark terminal backgrounds: brighter text and distinct
/// accents for contrast.
pub open spec fn spec_dark_theme() -> Theme {
    Theme {
        accent: UiColor::White,
        success: UiColor::Green,
        checkbox_selected: UiColor::Green,
        checkbox_unselected: UiColor::DarkGrey,
        item_selected_text: UiColor::White,
        item_unselected_text: UiColor::White,
        footer: UiColor::White,
        header_title: UiColor::White,
        header_hint: UiColor::DarkGrey,
        list_alt1: UiColor::White,
        list_alt2: UiColor::Grey,
    }
}

impl Theme {
    pub fn light() -> (r: Theme)
        ensures
            r == spec_light_theme(),
    {
        Theme {
            accent: UiColor::Blue,
            success: UiColor::Green,
            checkbox_selected: UiColor::DarkGreen,
            checkbox_unselected: UiColor::DarkGrey,
            item_selected_text: UiColor::Black,
            item_unselected_text: UiColor::Black,
            footer: UiColor::Blue,
            header_title: UiColor::Blue,
            header_hint: UiColor::DarkGrey,
            list_alt1: UiColor::Black,
            list_alt2: UiColor::DarkGrey,
        }
    }

    pub fn dark() -> (r: Theme)
        ensures
            r == spec_dark_theme(),
    {
        Theme {
            accent: UiColor::White,
            success: UiColor::Green,
            checkbox_selected: UiColor::Green,
            checkbox_unselected: UiColor::DarkGrey,
            item_selected_text: UiColor::White,
            item_unselected_text: UiColor::White,
            footer: UiColor::White,
            header_title: UiColor::White,
            header_hint: UiColor::DarkGrey,
            list_alt1: UiColor::White,
            list_alt2: UiColor::Grey,
        }
    }
}

impl From<ThemeKind> for Theme {
    /// The palette a theme kind selects.
    fn from(kind: ThemeKind) -> (r: Theme) {
        match kind {
            ThemeKind::Light => Theme::light(),
            ThemeKind::Dark => Theme::dark(),
        }
    }
}

impl vstd::std_specs::convert::FromSpecImpl<ThemeKind> for Theme {
    open spec fn obeys_from_spec() -> bool {
        true
    }

    open spec fn from_spec(kind: ThemeKind) -> Theme {
        match kind {
            ThemeKind::Light => spec_light_theme(),
            ThemeKind::Dark => spec_dark_theme(),
        }
    }
}

/// `c` is a decimal digit.
pub open spec fn is_digit(c: char) -> bool {
    '0' <= c && c <= '9'
}

/// Every character of `s` is a decimal digit.
pub open spec fn all_digits(s: Seq<char>) -> bool {
    forall|i: int| 0 <= i < s.len() ==> is_digit(#[trigger] s[i])
}

/// The decimal value of the first `n` characters of a digit string.
pub open spec fn digits_value(s: Seq<char>, n: int) -> int
    decreases n,
{
    if n <= 0 {
        0
    } else {
        digits_value(s, n - 1) * 10 + (s[n - 1] as int - '0' as int)
    }
}

/// What parsing `s` as a `u8` yields: an optional leading plus sign, then
/// at least one digit, with a value of at most 255.
pub open spec fn parse_u8_of(s: Seq<char>) -> Option<u8> {
    let digits = if s.len() > 0 && s[0] == '+' {
        s.skip(1)
    } else {
        s
    };
    if digits.len() == 0 || !all_digits(digits) {
        None
    } else if digits_value(digits, digits.len() as int) > 255 {
        None
    } else {
        Some(digits_value(digits, digits.len() as int) as u8)
    }
}

/// A digit string's value is never negative.
proof fn lemma_digits_value_nonneg(s: Seq<char>, n: int)
    requires
        n <= s.len(),
        all_digits(s),
    ensures
        digits_value(s, n) >= 0,
    decreases n,
{
    if n > 0 {
        lemma_digits_value_nonneg(s, n - 1);
        assert(is_digit(s[n - 1]));
        assert(digits_value(s, n - 1) * 10 >= 0) by (nonlinear_arith)
            requires
                digits_value(s, n - 1) >= 0,
        ;
    }
}

/// A digit string's value only grows as more digits are read.
proof fn lemma_digits_value_grows(s: Seq<char>, n: int, m: int)
    requires
        0 <= n <= m <= s.len(),
        all_digits(s),
    ensures
        digits_value(s, n) <= digits_value(s, m),
    decreases m - n,
{
    if n < m {
        lemma_digits_value_grows(s, n, m - 1);
        lemma_digits_value_nonneg(s, m - 1);
        assert(is_digit(s[m - 1]));
        assert(digits_value(s, m) == digits_value(s, m - 1) * 10 + (s[m - 1] as int - '0' as int));
        assert(digits_value(s, m - 1) * 10 >= digits_value(s, m - 1)) by (nonlinear_arith)
            requires
                digits_value(s, m - 1) >= 0,
        ;
    }
}

/// Parse a decimal `u8`: an optional leading plus sign, then digits, no
/// larger than 255.
pub fn parse_u8(s: &str) -> (r: Option<u8>)
    ensures
        r == parse_u8_of(s@),
{
    let total = s.unicode_len();
    let start: usize = if total > 0 && s.get_char(0) == '+' {
        1
    } else {
        0
    };
    let ghost digits = if s@.len() > 0 && s@[0] == '+' {
        s@.skip(1)
    } else {
        s@
    };
    proof {
        assert(digits =~= s@.subrange(start as int, total as int));
    }
    if start == total {
        return None;
    }
    let mut value: u32 = 0;
    let mut i: usize = start;
    while i < total
        invariant
            start <= i <= total,
            total == s@.len(),
            start == if s@.len() > 0 && s@[0] == '+' {
                1int
            } else {
                0int
            },
            digits == if s@.len() > 0 && s@[0] == '+' {
                s@.skip(1)
            } else {
                s@
            },
            digits =~= s@.subrange(start as int, total as int),
            all_digits(s@.subrange(start as int, i as int)),
            value <= 255,
            value as int == digits_value(digits, i - start),
        decreases total - i,
    {
        let c = s.get_char(i);
        if c < '0' || c > '9' {
            proof {
                assert(digits[i - start] == s@[i as int]);
                assert(!is_digit(digits[i - start]));
            }
            return None;
        }
        let d = (c as u32) - ('0' as u32);
        let next = value * 10 + d;
        proof {
            assert(s@.subrange(start as int, i + 1) =~= s@.subrange(start as int, i as int).push(
                s@[i as int],
            ));
            assert(digits_value(digits, i + 1 - start) == digits_value(digits, i - start) * 10 + (
            digits[i - start] as int - '0' as int));
        }
        if next > 255 {
            proof {
                if all_digits(digits) {
                    lemma_digits_value_grows(digits, i + 1 - start, digits.len() as int);
                }
            }
            return None;
        }
        value = next;
        i += 1;
    }
    proof {
        assert(s@.subrange(start as int, total as int) =~= digits);
        assert(all_digits(digits));
        lemma_digits_value_nonneg(digits, digits.len() as int);
    }
    Some(value as u8)
}

/// The position just after the last `;` of `s`, or zero when there is
/// none.
pub open spec fn after_last_semicolon(s: Seq<char>, n: int) -> int
    decreases n,
{
    if n <= 0 {
        0
    } else if s[n - 1] == ';' {
        n
    } else {
        after_last_semicolon(s, n - 1)
    }
}

/// The theme kind a `COLORFGBG` hint selects: the part after the last
/// semicolon names the background color; values of 8 and above are light
/// backgrounds. A missing or unreadable hint means a dark terminal, the
/// common default.
pub open spec fn spec_theme_kind_of_hint(hint: Option<Seq<char>>) -> ThemeKind {
    match hint {
        None => ThemeKind::Dark,
        Some(s) => {
            let tail = s.subrange(after_last_semicolon(s, s.len() as int), s.len() as int);
            match parse_u8_of(tail) {
                None => ThemeKind::Dark,
                Some(bg) => if bg >= 8 || bg == 15 {
                    ThemeKind::Light
                } else {
                    ThemeKind::Dark
                },
            }
        },
    }
}

/// Pick a theme kind from the `COLORFGBG` environment hint, which the
/// host reads and passes along; its last semicolon-separated field is the
/// terminal's background color number.
pub fn theme_kind_from_colorfgbg(hint: Option<&String>) -> (r: ThemeKind)
    ensures
        r == spec_theme_kind_of_hint(
            match hint {
                Some(s) => Some(s@),
                None => None,
            },
        ),
{
    let s = match hint {
        None => {
            return ThemeKind::Dark;
        },
        Some(s) => s,
    };
    let total = s.as_str().unicode_len();
    let mut cut: usize = 0;
    let mut i: usize = 0;
    while i < total
        invariant
            i <= total,
            total == s@.len(),
            cut == after_last_semicolon(s@, i as int),
            cut <= i,
        decreases total - i,
    {
        if s.as_str().get_char(i) == ';' {
            cut = i + 1;
        }
        proof {
            lemma_after_last_semicolon_step(s@, i as int, cut as int);
        }
        i += 1;
    }
    let tail = s.as_str().substring_char(cut, total);
    match parse_u8(tail) {
        None => ThemeKind::Dark,
        Some(bg) => if bg >= 8 || bg == 15 {
            ThemeKind::Light
        } else {
            ThemeKind::Dark
        },
    }
}

proof fn lemma_after_last_semicolon_step(s: Seq<char>, i: int, cut: int)
    requires
        0 <= i < s.len(),
        cut == if s[i] == ';' {
            i + 1
        } else {
            after_last_semicolon(s, i)
        },
    ensures
        cut == after_last_semicolon(s, i + 1),
{
}

} // verus!
