//! Colour tokens: the text of one colour cell, read as three channels.

use vstd::prelude::*;

verus! {

/// The colour painted for a cell whose token is neither six nor seven bytes long.
pub const FALLBACK_CHANNEL: u8 = 155;

/// Whether `b` is an ASCII hexadecimal digit.
pub open spec fn is_hex_digit(b: u8) -> bool {
    (0x30 <= b <= 0x39) || (0x41 <= b <= 0x46) || (0x61 <= b <= 0x66)
}

/// The value of the hexadecimal digit `b`.
pub open spec fn hex_digit_value(b: u8) -> int
    recommends
        is_hex_digit(b),
{
    if b <= 0x39 {
        b - 0x30
    } else if b <= 0x46 {
        b - 0x41 + 10
    } else {
        b - 0x61 + 10
    }
}

/// One channel, written as two bytes: two hexadecimal digits, or a plus sign
/// followed by one digit. Anything else is no channel.
pub open spec fn channel_value(hi: u8, lo: u8) -> Option<u8> {
    if !is_hex_digit(lo) {
        None
    } else if hi == 0x2b {
        Some(hex_digit_value(lo) as u8)
    } else if is_hex_digit(hi) {
        Some((16 * hex_digit_value(hi) + hex_digit_value(lo)) as u8)
    } else {
        None
    }
}

/// The digit that `b` stands for, if it is a hexadecimal digit.
pub fn hex_digit(b: u8) -> (r: Option<u8>)
    ensures
        r is Some <==> is_hex_digit(b),
        r is Some ==> r->0 == hex_digit_value(b),
{
    if 0x30 <= b && b <= 0x39 {
        Some(b - 0x30)
    } else if 0x41 <= b && b <= 0x46 {
        Some(b - 0x41 + 10)
    } else if 0x61 <= b && b <= 0x66 {
        Some(b - 0x61 + 10)
    } else {
        None
    }
}

/// Reads one channel from its two bytes.
pub fn parse_channel(hi: u8, lo: u8) -> (r: Option<u8>)
    ensures
        r == channel_value(hi, lo),
{
    match hex_digit(lo) {
        None => None,
        Some(l) => {
            if hi == 0x2b {
                Some(l)
            } else {
                match hex_digit(hi) {
                    None => None,
                    Some(h) => Some(16 * h + l),
                }
            }
        },
    }
}

/// The three channels written at `at` in `token`: six bytes, two for each of
/// red, green and blue. `None` where one of the pairs is no channel.
pub open spec fn channels_at(token: Seq<u8>, at: int) -> Option<(u8, u8, u8)>
    recommends
        0 <= at,
        at + 6 <= token.len(),
{
    match (
        channel_value(token[at], token[at + 1]),
        channel_value(token[at + 2], token[at + 3]),
        channel_value(token[at + 4], token[at + 5]),
    ) {
        (Some(r), Some(g), Some(b)) => Some((r, g, b)),
        _ => None,
    }
}

/// The colour that a token stands for, the token given by its bytes.
///
/// A token of seven bytes holds its channels after the first byte, one of six
/// bytes holds them from the start; both are malformed (`None`) where a pair
/// is no channel. A token of any other length stands for the fallback grey.
pub open spec fn token_color(token: Seq<u8>) -> Option<(u8, u8, u8)> {
    if token.len() == 7 {
        channels_at(token, 1)
    } else if token.len() == 6 {
        channels_at(token, 0)
    } else {
        Some((FALLBACK_CHANNEL, FALLBACK_CHANNEL, FALLBACK_CHANNEL))
    }
}

/// Reads the three channels that start at `at`.
fn parse_channels(token: &[u8], at: usize) -> (r: Option<(u8, u8, u8)>)
    requires
        at + 6 <= token@.len(),
    ensures
        r == channels_at(token@, at as int),
{
    let red = parse_channel(token[at], token[at + 1]);
    let green = parse_channel(token[at + 2], token[at + 3]);
    let blue = parse_channel(token[at + 4], token[at + 5]);
    match (red, green, blue) {
        (Some(r), Some(g), Some(b)) => Some((r, g, b)),
        _ => None,
    }
}

/// Reads the colour of a token from its bytes.
pub fn parse_color(token: &[u8]) -> (r: Option<(u8, u8, u8)>)
    ensures
        r == token_color(token@),
{
    if token.len() == 7 {
        parse_channels(token, 1)
    } else if token.len() == 6 {
        parse_channels(token, 0)
    } else {
        Some((FALLBACK_CHANNEL, FALLBACK_CHANNEL, FALLBACK_CHANNEL))
    }
}

} // verus!
