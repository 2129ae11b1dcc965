//! Resolution of cell colors to concrete RGB values.
//!
//! The first 16 palette entries use a fixed ANSI theme; entries 16..232 form
//! a 6x6x6 color cube and entries 232..256 a grayscale ramp.

use vstd::prelude::*;
use crate::style::{Color, Rgb, Style};

verus! {

/// The fixed theme for the 16 named ANSI palette entries.
pub open spec fn spec_ansi_rgb(idx: int) -> Rgb {
    if idx == 0 {
        Rgb { r: 0, g: 0, b: 0 }
    } else if idx == 1 {
        Rgb { r: 204, g: 0, b: 0 }
    } else if idx == 2 {
        Rgb { r: 0, g: 204, b: 0 }
    } else if idx == 3 {
        Rgb { r: 204, g: 204, b: 0 }
    } else if idx == 4 {
        Rgb { r: 0, g: 0, b: 204 }
    } else if idx == 5 {
        Rgb { r: 204, g: 0, b: 204 }
    } else if idx == 6 {
        Rgb { r: 0, g: 204, b: 204 }
    } else if idx == 7 {
        Rgb { r: 191, g: 191, b: 191 }
    } else if idx == 8 {
        Rgb { r: 102, g: 102, b: 102 }
    } else if idx == 9 {
        Rgb { r: 255, g: 85, b: 85 }
    } else if idx == 10 {
        Rgb { r: 85, g: 255, b: 85 }
    } else if idx == 11 {
        Rgb { r: 255, g: 255, b: 85 }
    } else if idx == 12 {
        Rgb { r: 85, g: 85, b: 255 }
    } else if idx == 13 {
        Rgb { r: 255, g: 85, b: 255 }
    } else if idx == 14 {
        Rgb { r: 85, g: 255, b: 255 }
    } else {
        Rgb { r: 255, g: 255, b: 255 }
    }
}

/// The default foreground color.
pub open spec fn spec_default_fg() -> Rgb {
    Rgb { r: 230, g: 230, b: 230 }
}

/// The default background color.
pub open spec fn spec_default_bg() -> Rgb {
    Rgb { r: 0, g: 0, b: 0 }
}

/// One channel of the 6x6x6 color cube: 0 maps to 0, v maps to 55 + 40v.
pub open spec fn spec_cube_channel(v: int) -> u8 {
    if v == 0 {
        0
    } else {
        (55 + 40 * v) as u8
    }
}

/// Resolution of a selected color to a concrete RGB value.
pub open spec fn spec_resolve(c: Color, foreground: bool) -> Rgb {
    match c {
        Color::Default => if foreground {
            spec_default_fg()
        } else {
            spec_default_bg()
        },
        Color::Rgb(r, g, b) => Rgb { r, g, b },
        Color::Indexed(idx) => if idx < 16 {
            spec_ansi_rgb(idx as int)
        } else if idx < 232 {
            Rgb {
                r: spec_cube_channel(((idx - 16) / 36) as int % 6),
                g: spec_cube_channel(((idx - 16) / 6) as int % 6),
                b: spec_cube_channel((idx - 16) as int % 6),
            }
        } else {
            Rgb { r: (8 + 10 * (idx - 232)) as u8, g: (8 + 10 * (idx - 232)) as u8, b: (8 + 10 * (
            idx - 232)) as u8 }
        },
    }
}

/// The concrete color pair a cell is drawn with: inverse swaps foreground
/// and background (each default still resolves per its original slot), and
/// bold brightens a basic named color shown in the text position.
pub open spec fn spec_render_colors(s: Style) -> (Rgb, Rgb) {
    let text_color = if s.inverse {
        s.bg
    } else {
        s.fg
    };
    let back_color = if s.inverse {
        s.fg
    } else {
        s.bg
    };
    let text0 = spec_resolve(text_color, !s.inverse);
    let back = spec_resolve(back_color, s.inverse);
    let text = if s.bold {
        match text_color {
            Color::Indexed(i) => if i < 8 {
                spec_ansi_rgb(i + 8)
            } else {
                text0
            },
            _ => text0,
        }
    } else {
        text0
    };
    (text, back)
}

/// Resolve a cell style to the `(text, background)` RGB pair for rendering.
pub fn render_colors(s: &Style) -> (r: (Rgb, Rgb))
    ensures
        r == spec_render_colors(*s),
{
    let text_color = if s.inverse {
        s.bg
    } else {
        s.fg
    };
    let back_color = if s.inverse {
        s.fg
    } else {
        s.bg
    };
    let text0 = resolve_color(text_color, !s.inverse);
    let back = resolve_color(back_color, s.inverse);
    let text = if s.bold {
        match text_color {
            Color::Indexed(i) => {
                if i < 8 {
                    default_ansi_rgb(i + 8)
                } else {
                    text0
                }
            },
            _ => text0,
        }
    } else {
        text0
    };
    (text, back)
}

/// The fixed RGB value of one of the 16 named ANSI palette entries.
pub fn default_ansi_rgb(idx: u8) -> (r: Rgb)
    requires
        idx < 16,
    ensures
        r == spec_ansi_rgb(idx as int),
{
    if idx == 0 {
        Rgb { r: 0, g: 0, b: 0 }
    } else if idx == 1 {
        Rgb { r: 204, g: 0, b: 0 }
    } else if idx == 2 {
        Rgb { r: 0, g: 204, b: 0 }
    } else if idx == 3 {
        Rgb { r: 204, g: 204, b: 0 }
    } else if idx == 4 {
        Rgb { r: 0, g: 0, b: 204 }
    } else if idx == 5 {
        Rgb { r: 204, g: 0, b: 204 }
    } else if idx == 6 {
        Rgb { r: 0, g: 204, b: 204 }
    } else if idx == 7 {
        Rgb { r: 191, g: 191, b: 191 }
    } else if idx == 8 {
        Rgb { r: 102, g: 102, b: 102 }
    } else if idx == 9 {
        Rgb { r: 255, g: 85, b: 85 }
    } else if idx == 10 {
        Rgb { r: 85, g: 255, b: 85 }
    } else if idx == 11 {
        Rgb { r: 255, g: 255, b: 85 }
    } else if idx == 12 {
        Rgb { r: 85, g: 85, b: 255 }
    } else if idx == 13 {
        Rgb { r: 255, g: 85, b: 255 }
    } else if idx == 14 {
        Rgb { r: 85, g: 255, b: 255 }
    } else {
        Rgb { r: 255, g: 255, b: 255 }
    }
}

/// Resolve a selected color to a concrete RGB value for rendering.
pub fn resolve_color(c: Color, foreground: bool) -> (r: Rgb)
    ensures
        r == spec_resolve(c, foreground),
{
    match c {
        Color::Default => {
            if foreground {
                Rgb { r: 230, g: 230, b: 230 }
            } else {
                Rgb { r: 0, g: 0, b: 0 }
            }
        },
        Color::Rgb(r, g, b) => Rgb { r, g, b },
        Color::Indexed(idx) => {
            if idx < 16 {
                default_ansi_rgb(idx)
            } else if idx < 232 {
                let i = idx - 16;
                Rgb {
                    r: cube_channel((i / 36) % 6),
                    g: cube_channel((i / 6) % 6),
                    b: cube_channel(i % 6),
                }
            } else {
                let level: u8 = 8 + 10 * (idx - 232);
                Rgb { r: level, g: level, b: level }
            }
        },
    }
}

/// One channel of the 6x6x6 color cube.
fn cube_channel(v: u8) -> (r: u8)
    requires
        v < 6,
    ensures
        r == spec_cube_channel(v as int),
{
    if v == 0 {
        0
    } else {
        55 + 40 * v
    }
}

} // verus!
