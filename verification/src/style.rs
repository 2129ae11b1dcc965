//! Colors and graphic-rendition (SGR) state.
//!
//! A cell's appearance is a [`Style`]: foreground and background [`Color`]
//! plus attribute flags.  SGR parameter lists accumulate onto the active
//! style; code 0 restores the default style.

use vstd::prelude::*;

verus! {

/// A concrete color, resolved for rendering.
#[derive(Clone, Copy, Debug, PartialEq, Eq, Structural)]
pub struct Rgb {
    pub r: u8,
    pub g: u8,
    pub b: u8,
}

/// A cell color as selected by escape sequences.
///
/// `Default` is the terminal's configured color for the slot (foreground or
/// background); `Indexed` selects from the 256-color palette, whose first 16
/// entries are the named ANSI colors; `Rgb` is 24-bit truecolor.
#[derive(Clone, Copy, Debug, PartialEq, Eq, Structural)]
pub enum Color {
    Default,
    Indexed(u8),
    Rgb(u8, u8, u8),
}

/// The graphic-rendition state applied to subsequently written cells.
#[derive(Clone, Copy, Debug, PartialEq, Eq, Structural)]
pub struct Style {
    pub fg: Color,
    pub bg: Color,
    pub bold: bool,
    pub italic: bool,
    pub underline: bool,
    pub strikethrough: bool,
    pub inverse: bool,
}

/// The default style: default colors, no attributes.
pub open spec fn base_style() -> Style {
    Style {
        fg: Color::Default,
        bg: Color::Default,
        bold: false,
        italic: false,
        underline: false,
        strikethrough: false,
        inverse: false,
    }
}

impl Style {
    /// The default style: default colors, no attributes.
    pub fn plain() -> (r: Style)
        ensures
            r == base_style(),
    {
        Style {
            fg: Color::Default,
            bg: Color::Default,
            bold: false,
            italic: false,
            underline: false,
            strikethrough: false,
            inverse: false,
        }
    }
}

/// Effect of a single non-extended SGR code on a style.
///
/// Unknown codes leave the style unchanged.
pub open spec fn sgr_one(s: Style, p: u16) -> Style {
    if p == 0 {
        base_style()
    } else if p == 1 {
        Style { bold: true, ..s }
    } else if p == 3 {
        Style { italic: true, ..s }
    } else if p == 4 {
        Style { underline: true, ..s }
    } else if p == 7 {
        Style { inverse: true, ..s }
    } else if p == 9 {
        Style { strikethrough: true, ..s }
    } else if p == 22 {
        Style { bold: false, ..s }
    } else if p == 23 {
        Style { italic: false, ..s }
    } else if p == 24 {
        Style { underline: false, ..s }
    } else if p == 27 {
        Style { inverse: false, ..s }
    } else if p == 29 {
        Style { strikethrough: false, ..s }
    } else if 30 <= p && p <= 37 {
        Style { fg: Color::Indexed((p - 30) as u8), ..s }
    } else if p == 39 {
        Style { fg: Color::Default, ..s }
    } else if 40 <= p && p <= 47 {
        Style { bg: Color::Indexed((p - 40) as u8), ..s }
    } else if p == 49 {
        Style { bg: Color::Default, ..s }
    } else if 90 <= p && p <= 97 {
        Style { fg: Color::Indexed((p - 90 + 8) as u8), ..s }
    } else if 100 <= p && p <= 107 {
        Style { bg: Color::Indexed((p - 100 + 8) as u8), ..s }
    } else {
        s
    }
}

/// Replace the foreground (or background) color of a style.
pub open spec fn with_color(s: Style, foreground: bool, c: Color) -> Style {
    if foreground {
        Style { fg: c, ..s }
    } else {
        Style { bg: c, ..s }
    }
}

/// Effect of a full SGR parameter list on a style.
///
/// Codes 38 and 48 select extended colors and consume their sub-parameters
/// (`5;n` for the 256-color palette, `2;r;g;b` for truecolor).  A malformed
/// extended selector discards the remainder of the list.
pub open spec fn sgr_apply(s: Style, ps: Seq<u16>) -> Style
    decreases ps.len(),
{
    if ps.len() == 0 {
        s
    } else if ps[0] == 38 || ps[0] == 48 {
        if ps.len() >= 3 && ps[1] == 5 && ps[2] <= 255 {
            sgr_apply(with_color(s, ps[0] == 38, Color::Indexed(ps[2] as u8)), ps.skip(3))
        } else if ps.len() >= 5 && ps[1] == 2 && ps[2] <= 255 && ps[3] <= 255 && ps[4] <= 255 {
            sgr_apply(
                with_color(s, ps[0] == 38, Color::Rgb(ps[2] as u8, ps[3] as u8, ps[4] as u8)),
                ps.skip(5),
            )
        } else {
            s
        }
    } else {
        sgr_apply(sgr_one(s, ps[0]), ps.skip(1))
    }
}

/// Apply an SGR parameter list to a style.
pub fn apply_sgr(s: &Style, params: &Vec<u16>) -> (r: Style)
    ensures
        r == sgr_apply(*s, params@),
{
    let mut cur: Style = *s;
    let mut i: usize = 0;
    proof {
        assert(params@.skip(0) =~= params@);
    }
    while i < params.len()
        invariant
            i <= params.len(),
            sgr_apply(*s, params@) == sgr_apply(cur, params@.skip(i as int)),
        decreases params.len() - i,
    {
        let p = params[i];
        if p == 38 || p == 48 {
            if params.len() - i >= 3 && params[i + 1] == 5 && params[i + 2] <= 255 {
                cur = apply_one_color(&cur, p == 38, Color::Indexed(params[i + 2] as u8));
                proof {
                    assert(params@.skip(i as int).skip(3) =~= params@.skip(i + 3));
                }
                i = i + 3;
            } else if params.len() - i >= 5 && params[i + 1] == 2 && params[i + 2] <= 255 && params[
                i + 3] <= 255 && params[i + 4] <= 255 {
                cur = apply_one_color(
                    &cur,
                    p == 38,
                    Color::Rgb(params[i + 2] as u8, params[i + 3] as u8, params[i + 4] as u8),
                );
                proof {
                    assert(params@.skip(i as int).skip(5) =~= params@.skip(i + 5));
                }
                i = i + 5;
            } else {
                return cur;
            }
        } else {
            cur = apply_one(&cur, p);
            proof {
                assert(params@.skip(i as int).skip(1) =~= params@.skip(i + 1));
            }
            i = i + 1;
        }
    }
    proof {
        assert(params@.skip(params@.len() as int) =~= Seq::<u16>::empty());
    }
    cur
}

/// Apply a single non-extended SGR code.
fn apply_one(s: &Style, p: u16) -> (r: Style)
    ensures
        r == sgr_one(*s, p),
{
    if p == 0 {
        Style::plain()
    } else if p == 1 {
        Style { bold: true, ..*s }
    } else if p == 3 {
        Style { italic: true, ..*s }
    } else if p == 4 {
        Style { underline: true, ..*s }
    } else if p == 7 {
        Style { inverse: true, ..*s }
    } else if p == 9 {
        Style { strikethrough: true, ..*s }
    } else if p == 22 {
        Style { bold: false, ..*s }
    } else if p == 23 {
        Style { italic: false, ..*s }
    } else if p == 24 {
        Style { underline: false, ..*s }
    } else if p == 27 {
        Style { inverse: false, ..*s }
    } else if p == 29 {
        Style { strikethrough: false, ..*s }
    } else if 30 <= p && p <= 37 {
        Style { fg: Color::Indexed((p - 30) as u8), ..*s }
    } else if p == 39 {
        Style { fg: Color::Default, ..*s }
    } else if 40 <= p && p <= 47 {
        Style { bg: Color::Indexed((p - 40) as u8), ..*s }
    } else if p == 49 {
        Style { bg: Color::Default, ..*s }
    } else if 90 <= p && p <= 97 {
        Style { fg: Color::Indexed((p - 90 + 8) as u8), ..*s }
    } else if 100 <= p && p <= 107 {
        Style { bg: Color::Indexed((p - 100 + 8) as u8), ..*s }
    } else {
        *s
    }
}

/// Replace the foreground (or background) color of a style.
fn apply_one_color(s: &Style, foreground: bool, c: Color) -> (r: Style)
    ensures
        r == with_color(*s, foreground, c),
{
    if foreground {
        Style { fg: c, ..*s }
    } else {
        Style { bg: c, ..*s }
    }
}

/// SGR reset restores the default style whatever the prior state.
///
/// Law: applying a parameter list that begins with code 0 yields the same
/// style as applying its tail to the default style; in particular `[0]`
/// always yields the default style itself.
pub proof fn lemma_sgr_reset_absolute(s: Style, ps: Seq<u16>)
    requires
        ps.len() >= 1,
        ps[0] == 0,
    ensures
        sgr_apply(s, ps) == sgr_apply(base_style(), ps.skip(1)),
        ps.len() == 1 ==> sgr_apply(s, ps) == base_style(),
{
    assert(sgr_one(s, 0) == base_style());
    if ps.len() == 1 {
        assert(sgr_apply(base_style(), ps.skip(1)) == base_style());
    }
}

} // verus!
