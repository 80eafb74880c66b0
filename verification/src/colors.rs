//! Per-direction console colors: the ANSI markers that bracket every
//! rendered chunk. Color is purely cosmetic; the markers come from the
//! `inline_colorization` crate.

use vstd::prelude::*;

verus! {

/// The display tag of one relay direction: green for primary-to-secondary
/// traffic, blue for secondary-to-primary traffic.
#[derive(Clone, Copy, Debug, PartialEq, Eq, Structural)]
pub enum ChannelColor {
    Green,
    Blue,
}

/// The ANSI marker that starts a color's output.
pub open spec fn color_start_seq(c: ChannelColor) -> Seq<char> {
    match c {
        ChannelColor::Green => "\u{1b}[32m"@,
        ChannelColor::Blue => "\u{1b}[34m"@,
    }
}

/// The ANSI marker that resets the foreground color.
pub open spec fn color_reset_seq() -> Seq<char> {
    "\u{1b}[39m"@
}

/// Relies on `inline_colorization::color_green`: the constant ANSI
/// foreground-green marker `ESC [ 3 2 m`.
#[verifier::external_body]
fn green_code() -> (r: &'static str)
    ensures
        r@ == "\u{1b}[32m"@,
{
    inline_colorization::color_green
}

/// Relies on `inline_colorization::color_blue`: the constant ANSI
/// foreground-blue marker `ESC [ 3 4 m`.
#[verifier::external_body]
fn blue_code() -> (r: &'static str)
    ensures
        r@ == "\u{1b}[34m"@,
{
    inline_colorization::color_blue
}

/// Relies on `inline_colorization::color_reset`: the constant ANSI
/// foreground-reset marker `ESC [ 3 9 m`.
#[verifier::external_body]
fn reset_code() -> (r: &'static str)
    ensures
        r@ == "\u{1b}[39m"@,
{
    inline_colorization::color_reset
}

/// The marker that opens output of the given color.
pub fn color_start(c: ChannelColor) -> (r: &'static str)
    ensures
        r@ == color_start_seq(c),
{
    match c {
        ChannelColor::Green => green_code(),
        ChannelColor::Blue => blue_code(),
    }
}

/// The marker that closes colored output.
pub fn color_reset() -> (r: &'static str)
    ensures
        r@ == color_reset_seq(),
{
    reset_code()
}

} // verus!
