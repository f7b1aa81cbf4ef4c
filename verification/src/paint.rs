//! The calls into the `colored` crate, which turns a text and a color
//! into a string that a terminal shows in that color. Their contracts
//! are believed, not proved.

use colored::{ColoredString, Colorize};
use vstd::prelude::*;

verus! {

#[verifier::external_type_specification]
#[verifier::external_body]
pub struct ExColoredString(ColoredString);

/// `text`, followed by as many spaces as it takes to fill `width`
/// characters; `text` itself where it is that long already.
pub open spec fn left_aligned(text: Seq<char>, width: nat) -> Seq<char> {
    if text.len() < width {
        text + Seq::new((width - text.len()) as nat, |i: int| ' ')
    } else {
        text
    }
}

/// The styled string that `colored` makes of `input` in the foreground
/// color that it knows as `hue`.
pub uninterp spec fn tinted(input: Seq<char>, hue: Seq<char>) -> ColoredString;

/// The styled string that `colored` makes of `input` without any color.
pub uninterp spec fn untinted(input: Seq<char>) -> ColoredString;

/// The escape sequence that `colored` writes in front of a text in the
/// foreground color that it knows as `hue`.
pub uninterp spec fn lead_of(hue: Seq<char>) -> Seq<char>;

/// The character that starts an escape sequence.
pub const ESCAPE: char = '\u{1b}';

/// The escape sequence that resets the color.
pub open spec fn reset() -> Seq<char> {
    seq![ESCAPE, '[', '0', 'm']
}

/// `text` as it is written in the color `hue`: between the color's
/// escape sequence and the reset sequence.
pub open spec fn in_color(hue: Seq<char>, text: Seq<char>) -> Seq<char> {
    lead_of(hue) + text + reset()
}

/// `Colorize::color` on a string slice, with the color given by name: a
/// styled string of `input` whose foreground is the color of that name.
/// The call reads nothing but its two arguments.
#[verifier::external_body]
pub(crate) fn tint(input: &str, hue: &str) -> (styled: ColoredString)
    ensures
        styled == tinted(input@, hue@),
{
    input.color(hue)
}

/// `Colorize::normal` on a string slice: a styled string of `input` with
/// no color and no style.
#[verifier::external_body]
pub(crate) fn plain(input: &str) -> (styled: ColoredString)
    ensures
        styled == untinted(input@),
{
    input.normal()
}

/// The `Display` of a styled string, left-aligned in `width` columns,
/// which the formatter takes up to the largest 16-bit number.
///
/// A string without color is written as it is and filled up with spaces
/// to `width` characters. A string with a color is written in one of
/// two ways, and which one is decided by the terminal and by variables
/// of the process: either like one without color, or as the color's
/// escape sequence, the string filled up to `width` characters, and the
/// sequence that resets the color. This is claimed of strings that hold
/// no escape character; in one that does, `colored` repeats the color
/// after every reset sequence, and nothing is claimed of it.
#[verifier::external_body]
pub(crate) fn pad_styled(styled: &ColoredString, width: usize) -> (text: String)
    requires
        width <= u16::MAX,
    ensures
        forall|input: Seq<char>|
            *styled == #[trigger] untinted(input) ==> text@ == left_aligned(input, width as nat),
        forall|input: Seq<char>, hue: Seq<char>|
            *styled == #[trigger] tinted(input, hue) && !input.contains(ESCAPE) ==> text@
                == left_aligned(input, width as nat) || text@ == lead_of(hue) + left_aligned(
                input,
                width as nat,
            ) + reset(),
{
    format!("{:<1$}", styled, width)
}

} // verus!
