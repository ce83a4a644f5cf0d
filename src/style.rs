//! How chat is shown: the display settings, and the color an author is drawn in.

use vstd::prelude::*;
use vstd::string::*;
use crate::codec::{is_hex6, is_hex_digit, strip_hash};

verus! {

/// A color as red, green and blue bytes.
#[derive(Debug, Clone, Copy, PartialEq, Eq, Structural)]
pub struct Rgb {
    pub r: u8,
    pub g: u8,
    pub b: u8,
}

/// The value of one hex digit.
pub open spec fn hex_val(c: char) -> int {
    if '0' <= c && c <= '9' {
        c as int - '0' as int
    } else if 'a' <= c && c <= 'f' {
        c as int - 'a' as int + 10
    } else {
        c as int - 'A' as int + 10
    }
}

/// The byte written by two hex digits.
pub open spec fn hex_byte(hi: char, lo: char) -> u8 {
    (hex_val(hi) * 16 + hex_val(lo)) as u8
}

/// The color written by six hex digits.
pub open spec fn rgb_of(d: Seq<char>) -> Rgb {
    Rgb { r: hex_byte(d[0], d[1]), g: hex_byte(d[2], d[3]), b: hex_byte(d[4], d[5]) }
}

/// Relies on `hex_color::HexColor::parse`: `#` and six hex digits give the three
/// bytes they write; a string that does not start with `#` is refused.
#[verifier::external_body]
fn parse_hex_color(s: &str) -> (r: Option<Rgb>)
    ensures
        s@.len() == 7 && s@[0] == '#' && is_hex6(s@.drop_first()) ==> r == Some(
            rgb_of(s@.drop_first()),
        ),
        s@.len() == 0 || s@[0] != '#' ==> r is None,
{
    match hex_color::HexColor::parse(s) {
        Ok(c) => Some(Rgb { r: c.r, g: c.g, b: c.b }),
        Err(_) => None,
    }
}

/// The color a `color` value (six hex digits, `#` optional) writes, when well formed.
pub open spec fn color_rgb_spec(color: Seq<char>) -> Option<Rgb> {
    if is_hex6(strip_hash(color)) {
        Some(rgb_of(strip_hash(color)))
    } else {
        None
    }
}

/// The color a `color` value writes; none when it is malformed.
pub fn color_rgb(color: &str) -> (r: Option<Rgb>)
    ensures
        r == color_rgb_spec(color@),
{
    let n = color.unicode_len();
    let digits = if n > 0 && color.get_char(0) == '#' {
        color.substring_char(1, n)
    } else {
        color.substring_char(0, n)
    };
    assert(digits@ =~= strip_hash(color@));
    if digits.unicode_len() != 6 {
        return None;
    }
    let mut i: usize = 0;
    while i < 6
        invariant
            digits@ == strip_hash(color@),
            digits@.len() == 6,
            i <= 6,
            forall|j: int| 0 <= j < i ==> is_hex_digit(#[trigger] digits@[j]),
        decreases 6 - i,
    {
        let c = digits.get_char(i);
        if !(('0' <= c && c <= '9') || ('a' <= c && c <= 'f') || ('A' <= c && c <= 'F')) {
            assert(!is_hex_digit(digits@[i as int]));
            return None;
        }
        i = i + 1;
    }
    let mut full = String::from_str("#");
    full.append(digits);
    proof {
        reveal_strlit("#");
        assert(full@.drop_first() =~= digits@);
    }
    parse_hex_color(full.as_str())
}

/// Display settings for chat.
pub struct StyleConfig {
    /// Draw authors in their own color.
    pub color: bool,
    /// Put an empty line before each message.
    pub pad: bool,
    /// Show what the service sends besides chat.
    pub debug: bool,
}

impl Default for StyleConfig {
    fn default() -> (r: StyleConfig)
        ensures
            r.color && !r.pad && !r.debug,
    {
        StyleConfig { color: true, pad: false, debug: false }
    }
}

impl StyleConfig {
    pub fn new() -> (r: StyleConfig)
        ensures
            r.color && !r.pad && !r.debug,
    {
        StyleConfig::default()
    }

    /// The color to draw an author in: theirs when colors are on and it is
    /// well formed; none means plain bold.
    pub fn author_rgb(&self, color: Option<&str>) -> (r: Option<Rgb>)
        ensures
            r == (if self.color && color is Some {
                color_rgb_spec(color->0@)
            } else {
                None
            }),
    {
        if self.color {
            match color {
                Some(c) => color_rgb(c),
                None => None,
            }
        } else {
            None
        }
    }
}

/// Display settings of a connection's chat output.
pub struct Config {
    pub newline_padding: bool,
    pub color_sender: bool,
    pub debug: bool,
}

impl Default for Config {
    fn default() -> (r: Config)
        ensures
            !r.newline_padding && r.color_sender && !r.debug,
    {
        Config { newline_padding: false, color_sender: true, debug: false }
    }
}

} // verus!
