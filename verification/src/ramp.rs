//! The glyphs of the brightness levels and their tones.
use vstd::prelude::*;
use crate::scalar::Scalar;

verus! {

/// The glyph of a pixel that nothing covers.
pub const BLANK: char = ' ';

/// The glyphs of the ten brightness levels, from the faintest to the densest.
pub open spec fn luminosity_ramp() -> Seq<char> {
    seq![' ', '.', ':', '-', '=', '+', '*', '#', '%', '@']
}

/// The glyph of a brightness level: a level beyond the last counts as the
/// last.
pub open spec fn glyph_of(level: int) -> char {
    luminosity_ramp()[if level < 9 {
        level
    } else {
        9
    }]
}

/// The glyph of a brightness level. A level beyond the last counts as the last.
pub fn ramp_glyph(level: usize) -> (glyph: char)
    ensures
        glyph == glyph_of(level as int),
{
    match level {
        0 => ' ',
        1 => '.',
        2 => ':',
        3 => '-',
        4 => '=',
        5 => '+',
        6 => '*',
        7 => '#',
        8 => '%',
        _ => '@',
    }
}

/// The brightness level of a brightness that was scaled to the ramp: its
/// whole part, and the nearest level where that is none. A NaN is level 0.
pub open spec fn level_of(scaled: Scalar) -> int {
    if scaled.floor_i32() < 0 {
        0
    } else if scaled.floor_i32() > 9 {
        9
    } else {
        scaled.floor_i32()
    }
}

/// The brightness level of `scaled`, which is a brightness from 0 to 1
/// times the number of the last level: what `scaled as usize` gives, kept
/// within the levels.
pub fn ramp_index(scaled: Scalar) -> (level: usize)
    ensures
        level == level_of(scaled),
        level <= 9,
{
    let whole: i32 = scaled.floor_to_i32();
    if whole < 0 {
        0
    } else if whole > 9 {
        9
    } else {
        whole as usize
    }
}

/// The four classes of glyphs that a display may tell apart by colour.
#[derive(Clone, Copy, Debug, PartialEq, Eq, Structural)]
pub enum Tone {
    DarkGrey,
    Grey,
    White,
    Cyan,
}

pub open spec fn tone_of(glyph: char) -> Tone {
    if glyph == ' ' || glyph == '.' || glyph == ':' {
        Tone::DarkGrey
    } else if glyph == '-' || glyph == '=' {
        Tone::Grey
    } else if glyph == '#' || glyph == '%' || glyph == '@' {
        Tone::Cyan
    } else {
        Tone::White
    }
}

/// The class of a glyph: the three faintest of the ramp, the next two, the
/// next two, the three densest. A glyph that is not of the ramp is white.
pub fn glyph_tone(glyph: char) -> (tone: Tone)
    ensures
        tone == tone_of(glyph),
{
    match glyph {
        ' ' | '.' | ':' => Tone::DarkGrey,
        '-' | '=' => Tone::Grey,
        '+' | '*' => Tone::White,
        '#' | '%' | '@' => Tone::Cyan,
        _ => Tone::White,
    }
}

} // verus!
