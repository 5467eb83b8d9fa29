//! The palette table: the fixed mapping from a console color number (0–255)
//! to its RGB triplet. The table is the standard 256-color terminal palette:
//! sixteen named base colors, a 6×6×6 color cube, and a 24-step gray ramp.

use vstd::prelude::*;

verus! {

/// Color information for one console color number.
pub struct ColorInfo {
    /// Color ID. It stores the console color number.
    pub color_id: u8,
    /// Color RGB information
    pub rgb: ColorRgbInfo,
}

/// Color RGB information
pub struct ColorRgbInfo {
    /// The red color level
    pub r: u8,
    /// The green color level
    pub g: u8,
    /// The blue color level
    pub b: u8,
}

/// RGB triplet of one of the sixteen standard palette colors.
pub open spec fn base16_rgb(n: int) -> (int, int, int) {
    if n == 0 {
        (0, 0, 0)
    } else if n == 1 {
        (128, 0, 0)
    } else if n == 2 {
        (0, 128, 0)
    } else if n == 3 {
        (128, 128, 0)
    } else if n == 4 {
        (0, 0, 128)
    } else if n == 5 {
        (128, 0, 128)
    } else if n == 6 {
        (0, 128, 128)
    } else if n == 7 {
        (192, 192, 192)
    } else if n == 8 {
        (128, 128, 128)
    } else if n == 9 {
        (255, 0, 0)
    } else if n == 10 {
        (0, 255, 0)
    } else if n == 11 {
        (255, 255, 0)
    } else if n == 12 {
        (0, 0, 255)
    } else if n == 13 {
        (255, 0, 255)
    } else if n == 14 {
        (0, 255, 255)
    } else {
        (255, 255, 255)
    }
}

/// One channel level of the 6×6×6 color cube, for a cube coordinate in 0..6.
pub open spec fn cube_level(k: int) -> int {
    if k == 0 {
        0
    } else {
        40 * k + 55
    }
}

/// The RGB triplet the palette table assigns to color number `n` in 0..256:
/// the sixteen standard colors, then the color cube, then the gray ramp.
pub open spec fn palette_rgb(n: int) -> (int, int, int) {
    if n < 16 {
        base16_rgb(n)
    } else if n < 232 {
        let m = n - 16;
        (cube_level(m / 36), cube_level((m / 6) % 6), cube_level(m % 6))
    } else {
        let v = 10 * (n - 232) + 8;
        (v, v, v)
    }
}

/// The channel values of one of the sixteen standard palette colors.
fn base16_channels(num: u8) -> (rgb: (u8, u8, u8))
    requires
        num < 16,
    ensures
        rgb.0 as int == base16_rgb(num as int).0,
        rgb.1 as int == base16_rgb(num as int).1,
        rgb.2 as int == base16_rgb(num as int).2,
{
    match num {
        0 => (0, 0, 0),
        1 => (128, 0, 0),
        2 => (0, 128, 0),
        3 => (128, 128, 0),
        4 => (0, 0, 128),
        5 => (128, 0, 128),
        6 => (0, 128, 128),
        7 => (192, 192, 192),
        8 => (128, 128, 128),
        9 => (255, 0, 0),
        10 => (0, 255, 0),
        11 => (255, 255, 0),
        12 => (0, 0, 255),
        13 => (255, 0, 255),
        14 => (0, 255, 255),
        _ => (255, 255, 255),
    }
}

/// One channel level of the color cube, for a cube coordinate in 0..6.
fn cube_channel(k: u8) -> (v: u8)
    requires
        k < 6,
    ensures
        v as int == cube_level(k as int),
{
    if k == 0 {
        0
    } else {
        40 * k + 55
    }
}

/// Gets the color information for a specified color number. Every color
/// number 0–255 has exactly one entry in the palette table, so the lookup
/// is total: the returned record carries the queried number and the RGB
/// triplet the table assigns to it.
pub fn get_color_info(num: u8) -> (info: ColorInfo)
    ensures
        info.color_id == num,
        info.rgb.r as int == palette_rgb(num as int).0,
        info.rgb.g as int == palette_rgb(num as int).1,
        info.rgb.b as int == palette_rgb(num as int).2,
{
    let rgb: (u8, u8, u8) = if num < 16 {
        base16_channels(num)
    } else if num < 232 {
        let m = num - 16;
        (cube_channel(m / 36), cube_channel((m / 6) % 6), cube_channel(m % 6))
    } else {
        let v = 10 * (num - 232) + 8;
        (v, v, v)
    };
    ColorInfo { color_id: num, rgb: ColorRgbInfo { r: rgb.0, g: rgb.1, b: rgb.2 } }
}

} // verus!
