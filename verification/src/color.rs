//! Color records and the specifier parser. A specifier is an `R;G;B`
//! decimal triplet, a console color number 0–255, or a `#RRGGBB` hex code,
//! optionally carrying stray double quotes, which are ignored.

use vstd::prelude::*;

use crate::colors_info::get_color_info;
use crate::colors_info::palette_rgb;
use crate::render::bg_of;
use crate::render::bg_str;
use crate::render::enclosed_of;
use crate::render::enclosed_str;
use crate::render::fg_of;
use crate::render::fg_str;
use crate::render::hex_of;
use crate::render::hex_str;
use crate::render::plain_of;
use crate::render::plain_str;
use crate::scan::all_dec_digits;
use crate::scan::contains_semi;
use crate::scan::dec_val;
use crate::scan::dec_value_capped;
use crate::scan::hex_digit_value;
use crate::scan::hex_val;
use crate::scan::is_dec_u8;
use crate::scan::is_hex_digit;
use crate::scan::lemma_split_semi_at_least_four;
use crate::scan::lemma_split_semi_one;
use crate::scan::lemma_split_semi_two;
use crate::scan::scan_all_dec_digits;
use crate::scan::split_semi;
use crate::scan::strip_quotes;
use crate::scan::strip_quotes_chars;

verus! {

/// The color type enumeration
#[derive(Debug, Clone, Copy, PartialEq, Eq, Structural)]
pub enum ColorType {
    /// The target color is 0 - 15
    Color16,
    /// The target color is 0 - 255
    Color255,
    /// The target color is a true color
    ColorTrue,
}

/// Why a specifier was rejected.
#[derive(Debug, Clone, Copy, PartialEq, Eq, Structural)]
pub enum ParseReason {
    /// Splitting on `;` did not yield exactly three parts.
    TripletPartCount,
    /// A part of the triplet is not a decimal integer of at most 255.
    TripletChannel,
    /// A numeric color number exceeds 255.
    IndexOutOfRange,
    /// `#` is not followed by exactly six hex digits.
    HexMalformed,
    /// The specifier matches no recognized form.
    Unrecognized,
}

/// The error returned for a specifier that matches no recognized form or
/// whose matched form holds invalid data. It echoes the offending
/// specifier verbatim.
#[derive(Debug)]
pub struct ParseError {
    /// The specifier as the caller supplied it.
    pub input: String,
    /// Why it was rejected.
    pub reason: ParseReason,
}

/// The structure for color information
#[derive(Debug)]
pub struct ColorFields {
    /// Plain sequence that describes only the color sequence
    pub plain_sequence: String,
    /// Same as above, but enclosed
    pub plain_sequence_enclosed: String,
    /// VT sequence string to set the foreground color of the console to the parsed color
    pub vt_sequence_foreground: String,
    /// VT sequence string to set the background color of the console to the parsed color
    pub vt_sequence_background: String,
    /// The red color level
    pub r: u8,
    /// The green color level
    pub g: u8,
    /// The blue color level
    pub b: u8,
    /// The hexadecimal representation of the color. Used in HTML.
    pub hex: String,
    /// The color type
    pub color_type: ColorType,
}

impl ColorFields {
    /// Every string field is the rendering of the record's own channels.
    pub open spec fn wf(&self) -> bool {
        &&& self.plain_sequence@ == plain_of(self.r, self.g, self.b)
        &&& self.plain_sequence_enclosed@ == enclosed_of(self.r, self.g, self.b)
        &&& self.vt_sequence_foreground@ == fg_of(self.r, self.g, self.b)
        &&& self.vt_sequence_background@ == bg_of(self.r, self.g, self.b)
        &&& self.hex@ == hex_of(self.r, self.g, self.b)
    }
}

/// What parsing an already quote-stripped specifier yields, if it contains
/// a semicolon: exactly three parts, each an unsigned 8-bit decimal integer.
pub open spec fn parse_triplet(s: Seq<char>) -> Result<(u8, u8, u8, ColorType), ParseReason> {
    let parts = split_semi(s);
    if parts.len() == 3 {
        if is_dec_u8(parts[0]) && is_dec_u8(parts[1]) && is_dec_u8(parts[2]) {
            Ok(
                (
                    dec_val(parts[0]) as u8,
                    dec_val(parts[1]) as u8,
                    dec_val(parts[2]) as u8,
                    ColorType::ColorTrue,
                ),
            )
        } else {
            Err(ParseReason::TripletChannel)
        }
    } else {
        Err(ParseReason::TripletPartCount)
    }
}

/// What parsing an already quote-stripped specifier yields. The forms are
/// tried in a fixed priority order: a semicolon-delimited triplet first,
/// then a pure numeric color number, then a `#`-prefixed hex code.
pub open spec fn parse_stripped(s: Seq<char>) -> Result<(u8, u8, u8, ColorType), ParseReason> {
    if contains_semi(s) {
        parse_triplet(s)
    } else if s.len() > 0 && all_dec_digits(s) {
        if dec_val(s) <= 255 {
            let rgb = palette_rgb(dec_val(s));
            Ok(
                (
                    rgb.0 as u8,
                    rgb.1 as u8,
                    rgb.2 as u8,
                    if dec_val(s) <= 15 {
                        ColorType::Color16
                    } else {
                        ColorType::Color255
                    },
                ),
            )
        } else {
            Err(ParseReason::IndexOutOfRange)
        }
    } else if s.len() > 0 && s[0] == '#' {
        if s.len() == 7 && is_hex_digit(s[1]) && is_hex_digit(s[2]) && is_hex_digit(s[3])
            && is_hex_digit(s[4]) && is_hex_digit(s[5]) && is_hex_digit(s[6]) {
            Ok(
                (
                    (hex_val(s[1]) * 16 + hex_val(s[2])) as u8,
                    (hex_val(s[3]) * 16 + hex_val(s[4])) as u8,
                    (hex_val(s[5]) * 16 + hex_val(s[6])) as u8,
                    ColorType::ColorTrue,
                ),
            )
        } else {
            Err(ParseReason::HexMalformed)
        }
    } else {
        Err(ParseReason::Unrecognized)
    }
}

/// What parsing a raw specifier yields: stray double quotes are removed
/// first, then the stripped string is read as `parse_stripped` says.
pub open spec fn spec_parse(raw: Seq<char>) -> Result<(u8, u8, u8, ColorType), ParseReason> {
    parse_stripped(strip_quotes(raw))
}

/// Builds the color record for the three resolved channels and the given
/// classification.
fn build_fields(r: u8, g: u8, b: u8, color_type: ColorType) -> (c: ColorFields)
    ensures
        c.r == r,
        c.g == g,
        c.b == b,
        c.color_type == color_type,
        c.wf(),
{
    ColorFields {
        plain_sequence: plain_str(r, g, b),
        plain_sequence_enclosed: enclosed_str(r, g, b),
        vt_sequence_foreground: fg_str(r, g, b),
        vt_sequence_background: bg_str(r, g, b),
        r,
        g,
        b,
        hex: hex_str(r, g, b),
        color_type,
    }
}

/// Makes a color structure from the RGB values. Always a true color.
pub fn make_color_from_rgb(r: u8, g: u8, b: u8) -> (c: ColorFields)
    ensures
        c.r == r,
        c.g == g,
        c.b == b,
        c.color_type == ColorType::ColorTrue,
        c.wf(),
{
    build_fields(r, g, b, ColorType::ColorTrue)
}

/// Makes a color structure from the color number according to the console
/// data: the channels come from the palette table, and the color type
/// records whether the number lies in the 16-color range.
pub fn make_color_from_num(num: u8) -> (c: ColorFields)
    ensures
        c.r as int == palette_rgb(num as int).0,
        c.g as int == palette_rgb(num as int).1,
        c.b as int == palette_rgb(num as int).2,
        c.color_type == (if num <= 15 {
            ColorType::Color16
        } else {
            ColorType::Color255
        }),
        c.wf(),
{
    let info = get_color_info(num);
    let color_type = if num <= 15 {
        ColorType::Color16
    } else {
        ColorType::Color255
    };
    build_fields(info.rgb.r, info.rgb.g, info.rgb.b, color_type)
}

/// Initializes a color structure from the given color specifier either in
/// the format of `[R];[G];[B]`, `#RRGGBB`, or `[ColorNumber]`, after
/// ignoring stray double quotes. A specifier matching no form, or one whose
/// matched form holds invalid data, is rejected with a [`ParseError`]
/// echoing it.
pub fn make_color_from_specifier(specifier: String) -> (res: Result<ColorFields, ParseError>)
    ensures
        match res {
            Ok(c) => spec_parse(specifier@) == Ok::<_, ParseReason>(
                (c.r, c.g, c.b, c.color_type),
            ) && c.wf(),
            Err(e) => spec_parse(specifier@) == Err::<(u8, u8, u8, ColorType), _>(e.reason)
                && e.input@ == specifier@,
        },
{
    let v = strip_quotes_chars(specifier.as_str());
    let ghost s = v@;
    let n = v.len();

    // Find the first three semicolons, counting all of them.
    let mut nsemi: usize = 0;
    let mut p1: usize = 0;
    let mut p2: usize = 0;
    let mut p3: usize = 0;
    let mut i: usize = 0;
    while i < n
        invariant
            i <= n,
            n == s.len(),
            s == v@,
            nsemi <= i,
            nsemi == 0 ==> forall|k: int| 0 <= k < i ==> s[k] != ';',
            nsemi >= 1 ==> p1 < i && s[p1 as int] == ';' && (forall|k: int|
                0 <= k < p1 ==> s[k] != ';'),
            nsemi == 1 ==> forall|k: int| p1 < k < i ==> s[k] != ';',
            nsemi >= 2 ==> p1 < p2 < i && s[p2 as int] == ';' && (forall|k: int|
                p1 < k < p2 ==> s[k] != ';'),
            nsemi == 2 ==> forall|k: int| p2 < k < i ==> s[k] != ';',
            nsemi >= 3 ==> p2 < p3 < i && s[p3 as int] == ';',
        decreases n - i,
    {
        if v[i] == ';' {
            if nsemi == 0 {
                p1 = i;
            } else if nsemi == 1 {
                p2 = i;
            } else if nsemi == 2 {
                p3 = i;
            }
            if nsemi < 3 {
                nsemi = nsemi + 1;
            }
        }
        i = i + 1;
    }

    if nsemi >= 1 {
        // Semicolon-delimited triplet form.
        proof {
            assert(contains_semi(s));
        }
        if nsemi == 1 {
            proof {
                lemma_split_semi_one(s, p1 as int);
            }
            return Err(ParseError { input: specifier, reason: ParseReason::TripletPartCount });
        }
        if nsemi >= 3 {
            proof {
                lemma_split_semi_at_least_four(s, p1 as int, p2 as int, p3 as int);
            }
            return Err(ParseError { input: specifier, reason: ParseReason::TripletPartCount });
        }
        proof {
            lemma_split_semi_two(s, p1 as int, p2 as int);
        }
        let cr = parse_channel(&v, 0, p1);
        let cg = parse_channel(&v, p1 + 1, p2);
        let cb = parse_channel(&v, p2 + 1, n);
        proof {
            assert(s.subrange(0, p1 as int) =~= s.take(p1 as int));
            assert(s.subrange(p2 as int + 1, n as int) =~= s.skip(p2 as int + 1));
        }
        match (cr, cg, cb) {
            (Some(r), Some(g), Some(b)) => Ok(build_fields(r, g, b, ColorType::ColorTrue)),
            _ => Err(ParseError { input: specifier, reason: ParseReason::TripletChannel }),
        }
    } else if n > 0 && scan_all_dec_digits(&v, 0, n) {
        // Pure numeric color number form.
        proof {
            assert(s.subrange(0, n as int) =~= s);
        }
        match dec_value_capped(&v, 0, n) {
            Some(num) => {
                let info = get_color_info(num);
                let color_type = if num <= 15 {
                    ColorType::Color16
                } else {
                    ColorType::Color255
                };
                Ok(build_fields(info.rgb.r, info.rgb.g, info.rgb.b, color_type))
            },
            None => Err(ParseError { input: specifier, reason: ParseReason::IndexOutOfRange }),
        }
    } else if n > 0 && v[0] == '#' {
        // Hash-prefixed hex code form.
        proof {
            assert(!contains_semi(s));
            assert(!(s.len() > 0 && all_dec_digits(s)));
        }
        if n != 7 {
            return Err(ParseError { input: specifier, reason: ParseReason::HexMalformed });
        }
        let h1 = hex_digit_value(v[1]);
        let h2 = hex_digit_value(v[2]);
        let h3 = hex_digit_value(v[3]);
        let h4 = hex_digit_value(v[4]);
        let h5 = hex_digit_value(v[5]);
        let h6 = hex_digit_value(v[6]);
        match (h1, h2, h3, h4, h5, h6) {
            (Some(a), Some(b), Some(c), Some(d), Some(e), Some(f)) => {
                let red = a * 16 + b;
                let green = c * 16 + d;
                let blue = e * 16 + f;
                Ok(build_fields(red, green, blue, ColorType::ColorTrue))
            },
            _ => Err(ParseError { input: specifier, reason: ParseReason::HexMalformed }),
        }
    } else {
        proof {
            assert(!contains_semi(s));
        }
        Err(ParseError { input: specifier, reason: ParseReason::Unrecognized })
    }
}

/// Reads one channel of a semicolon-delimited triplet: the segment of `v`
/// between `from` and `to` as an unsigned 8-bit decimal integer.
fn parse_channel(v: &Vec<char>, from: usize, to: usize) -> (r: Option<u8>)
    requires
        from <= to <= v@.len(),
    ensures
        match r {
            Some(x) => is_dec_u8(v@.subrange(from as int, to as int)) && x as int == dec_val(
                v@.subrange(from as int, to as int),
            ),
            None => !is_dec_u8(v@.subrange(from as int, to as int)),
        },
{
    if from == to {
        return None;
    }
    if !scan_all_dec_digits(v, from, to) {
        return None;
    }
    dec_value_capped(v, from, to)
}

} // verus!
