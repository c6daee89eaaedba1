//! Terminal colors → the RGB colors painted on screen.
use vstd::prelude::*;

verus! {

/// An opaque RGB color.
#[derive(Clone, Copy, PartialEq, Eq, Debug, Structural)]
pub struct Rgb {
    pub r: u8,
    pub g: u8,
    pub b: u8,
}

/// A color as the terminal parser reports it for a cell.
#[derive(Clone, Copy, PartialEq, Eq, Debug, Structural)]
pub enum TermColor {
    /// The default terminal color.
    Default,
    /// An indexed terminal color.
    Idx(u8),
    /// An RGB terminal color. The parameters are (red, green, blue).
    Rgb(u8, u8, u8),
}

pub open spec fn rgb(r: u8, g: u8, b: u8) -> Rgb {
    Rgb { r, g, b }
}

/// Default foreground: slightly-off white, like most terminal themes.
pub open spec fn spec_default_fg() -> Rgb {
    rgb(0xd8, 0xd8, 0xd8)
}

/// Default background: pure black.
pub open spec fn spec_default_bg() -> Rgb {
    rgb(0, 0, 0)
}

/// Default foreground: slightly-off white, like most terminal themes.
pub fn default_fg() -> (c: Rgb)
    ensures
        c == spec_default_fg(),
{
    Rgb { r: 0xd8, g: 0xd8, b: 0xd8 }
}

/// Default background: pure black.
pub fn default_bg() -> (c: Rgb)
    ensures
        c == spec_default_bg(),
{
    Rgb { r: 0, g: 0, b: 0 }
}

/// Intensity of one axis of the 6x6x6 color cube (xterm's levels).
pub open spec fn cube_level(v: int) -> u8 {
    if v == 0 {
        0
    } else {
        (55 + v * 40) as u8
    }
}

/// The 16 standard and bright ANSI colors (xterm defaults, with blue nudged
/// lighter for legibility on black).
pub open spec fn ansi_color(idx: u8) -> Rgb {
    if idx == 0 { rgb(0, 0, 0) }
    else if idx == 1 { rgb(205, 0, 0) }
    else if idx == 2 { rgb(0, 205, 0) }
    else if idx == 3 { rgb(205, 205, 0) }
    else if idx == 4 { rgb(60, 110, 230) }
    else if idx == 5 { rgb(205, 0, 205) }
    else if idx == 6 { rgb(0, 205, 205) }
    else if idx == 7 { rgb(229, 229, 229) }
    else if idx == 8 { rgb(127, 127, 127) }
    else if idx == 9 { rgb(255, 0, 0) }
    else if idx == 10 { rgb(0, 255, 0) }
    else if idx == 11 { rgb(255, 255, 0) }
    else if idx == 12 { rgb(92, 92, 255) }
    else if idx == 13 { rgb(255, 0, 255) }
    else if idx == 14 { rgb(0, 255, 255) }
    else { rgb(255, 255, 255) }
}

/// The xterm 256-color palette: 16 ANSI colors, a 6x6x6 color cube
/// (16..=231) and a 24-step gray ramp (232..=255).
pub open spec fn xterm_color(idx: u8) -> Rgb {
    if idx < 16 {
        ansi_color(idx)
    } else if idx <= 231 {
        let i = idx - 16;
        rgb(cube_level(i / 36), cube_level((i % 36) / 6), cube_level(i % 6))
    } else {
        let v = (8 + (idx - 232) * 10) as u8;
        rgb(v, v, v)
    }
}

/// The foreground color painted for a cell. The default color is off-white
/// (white when bold); bold brightens the 8 basic ANSI colors.
pub open spec fn fg_color(c: TermColor, bold: bool) -> Rgb {
    match c {
        TermColor::Default => if bold {
            rgb(255, 255, 255)
        } else {
            spec_default_fg()
        },
        TermColor::Idx(i) => if bold && i < 8 {
            xterm_color((i + 8) as u8)
        } else {
            xterm_color(i)
        },
        TermColor::Rgb(r, g, b) => rgb(r, g, b),
    }
}

/// The background color painted for a cell. The default color is black:
/// the default means different things for foreground and background.
pub open spec fn bg_color(c: TermColor) -> Rgb {
    match c {
        TermColor::Default => spec_default_bg(),
        TermColor::Idx(i) => xterm_color(i),
        TermColor::Rgb(r, g, b) => rgb(r, g, b),
    }
}

/// The default color means different things for foreground and background,
/// so text in default colors is never painted invisibly (same color on
/// same color), bold or not.
pub proof fn lemma_default_colors_differ(bold: bool)
    ensures
        fg_color(TermColor::Default, bold) != bg_color(TermColor::Default),
{
}

/// Bold turns each of the 8 basic ANSI colors into its bright variant.
pub proof fn lemma_bold_brightens(i: u8)
    requires
        i < 8,
    ensures
        fg_color(TermColor::Idx(i), true) == xterm_color((i + 8) as u8),
        fg_color(TermColor::Idx(i), false) == xterm_color(i),
{
}

/// The basic ANSI colors red, green, yellow, magenta and cyan (1, 2, 3, 5, 6)
/// and their bright variants (9, 10, 11, 13, 14) follow ANSI's numbering:
/// bit 0 of the index is red, bit 1 green, bit 2 blue. A basic color has
/// its channels at xterm's 205 and a bright one at 255; the other channels
/// are 0.
pub proof fn lemma_ansi_hues(i: u8)
    requires
        1 <= i <= 6,
        i != 4,
    ensures
        xterm_color(i) == rgb(
            if i % 2 == 1 { 205u8 } else { 0u8 },
            if (i / 2) % 2 == 1 { 205u8 } else { 0u8 },
            if (i / 4) % 2 == 1 { 205u8 } else { 0u8 },
        ),
        xterm_color((i + 8) as u8) == rgb(
            if i % 2 == 1 { 255u8 } else { 0u8 },
            if (i / 2) % 2 == 1 { 255u8 } else { 0u8 },
            if (i / 4) % 2 == 1 { 255u8 } else { 0u8 },
        ),
{
}

/// The rest of the 16 ANSI colors: black, xterm's light gray (229) for
/// white, gray (127) for bright black, pure white for bright white, and
/// blue (4) and bright blue (12) lightened from xterm's for legibility on
/// black.
pub proof fn lemma_ansi_grays_and_blue()
    ensures
        xterm_color(0) == rgb(0, 0, 0),
        xterm_color(7) == rgb(229, 229, 229),
        xterm_color(8) == rgb(127, 127, 127),
        xterm_color(15) == rgb(255, 255, 255),
        xterm_color(4) == rgb(60, 110, 230),
        xterm_color(12) == rgb(92, 92, 255),
{
}

/// Colors 16..=231 form a 6x6x6 cube: index 16 + 36 r + 6 g + b has red
/// level r, green level g and blue level b, where level 0 is 0 and each
/// further level is 40 brighter, starting at 95 (0, 95, 135, 175, 215, 255).
/// Colors 232..=255 are a ramp of 24 grays from 8 in steps of 10.
pub proof fn lemma_cube_and_ramp(r: u8, g: u8, b: u8, k: u8)
    requires
        r < 6,
        g < 6,
        b < 6,
        k < 24,
    ensures
        xterm_color((16 + 36 * r + 6 * g + b) as u8) == rgb(
            if r == 0 { 0u8 } else { (95 + 40 * (r - 1)) as u8 },
            if g == 0 { 0u8 } else { (95 + 40 * (g - 1)) as u8 },
            if b == 0 { 0u8 } else { (95 + 40 * (b - 1)) as u8 },
        ),
        xterm_color((232 + k) as u8) == rgb((8 + 10 * k) as u8, (8 + 10 * k) as u8, (8 + 10 * k) as u8),
{
    let i: int = 36 * r + 6 * g + b;
    assert(i / 36 == r && (i % 36) / 6 == g && i % 6 == b) by (nonlinear_arith)
        requires
            i == 36 * r + 6 * g + b,
            r < 6,
            g < 6,
            b < 6,
    ;
    assert(16 + i <= 231);
}

fn level(v: u32) -> (l: u8)
    requires
        v <= 5,
    ensures
        l == cube_level(v as int),
{
    if v == 0 {
        0
    } else {
        (55 + v * 40) as u8
    }
}

pub fn xterm_256(idx: u8) -> (c: Rgb)
    ensures
        c == xterm_color(idx),
{
    match idx {
        // Standard + bright ANSI colors (xterm defaults).
        0 => Rgb { r: 0, g: 0, b: 0 },
        1 => Rgb { r: 205, g: 0, b: 0 },
        2 => Rgb { r: 0, g: 205, b: 0 },
        3 => Rgb { r: 205, g: 205, b: 0 },
        4 => Rgb { r: 60, g: 110, b: 230 },  // nudged lighter than xterm's for legibility on black
        5 => Rgb { r: 205, g: 0, b: 205 },
        6 => Rgb { r: 0, g: 205, b: 205 },
        7 => Rgb { r: 229, g: 229, b: 229 },
        8 => Rgb { r: 127, g: 127, b: 127 },
        9 => Rgb { r: 255, g: 0, b: 0 },
        10 => Rgb { r: 0, g: 255, b: 0 },
        11 => Rgb { r: 255, g: 255, b: 0 },
        12 => Rgb { r: 92, g: 92, b: 255 },
        13 => Rgb { r: 255, g: 0, b: 255 },
        14 => Rgb { r: 0, g: 255, b: 255 },
        15 => Rgb { r: 255, g: 255, b: 255 },
        16..=231 => {
            let i: u32 = idx as u32 - 16;
            let r = i / 36;
            let g = (i % 36) / 6;
            let b = i % 6;
            Rgb { r: level(r), g: level(g), b: level(b) }
        },
        232..=255 => {
            let val = (8 + (idx as u32 - 232) * 10) as u8;
            Rgb { r: val, g: val, b: val }
        },
    }
}

/// The default color means *different things* for foreground and
/// background: off-white for text, black behind it.
pub fn convert_fg(c: TermColor, bold: bool) -> (r: Rgb)
    ensures
        r == fg_color(c, bold),
{
    match c {
        TermColor::Default => {
            if bold {
                Rgb { r: 255, g: 255, b: 255 }
            } else {
                default_fg()
            }
        },
        // Bold + basic ANSI color conventionally brightens to the high-intensity variant.
        TermColor::Idx(i) => {
            if bold && i < 8 {
                xterm_256(i + 8)
            } else {
                xterm_256(i)
            }
        },
        TermColor::Rgb(r, g, b) => Rgb { r, g, b },
    }
}

pub fn convert_bg(c: TermColor) -> (r: Rgb)
    ensures
        r == bg_color(c),
{
    match c {
        TermColor::Default => default_bg(),
        TermColor::Idx(i) => xterm_256(i),
        TermColor::Rgb(r, g, b) => Rgb { r, g, b },
    }
}

} // verus!
