//! Color tags, and the text of the messages that the browser shows.

use crate::listing::Failure;
use crate::paint::{plain, tint, tinted, untinted};
use vstd::string::StringExecFns;
use colored::ColoredString;
use vstd::prelude::*;

verus! {

/// The tag of the color in which text is shown unless it is given
/// another.
pub const DEF_COLOR: &'static str = "white";

/// Whether two string slices hold the same text (`==` on `str`).
#[verifier::external_body]
pub(crate) fn same_text(a: &str, b: &str) -> (same: bool)
    ensures
        same == (a@ == b@),
{
    a == b
}

/// The name under which the color of a tag is painted, or `None` for a
/// text that is no color tag.
pub open spec fn hue_of(tag: Seq<char>) -> Option<Seq<char>> {
    if tag == "red"@ {
        Some("red"@)
    } else if tag == "green"@ {
        Some("green"@)
    } else if tag == "blue"@ {
        Some("blue"@)
    } else if tag == "cyan"@ {
        Some("cyan"@)
    } else if tag == "magenta"@ {
        Some("magenta"@)
    } else if tag == "yellow"@ {
        Some("yellow"@)
    } else if tag == "black"@ {
        Some("black"@)
    } else if tag == "white"@ {
        Some("white"@)
    } else if tag == "purple"@ {
        Some("purple"@)
    } else if tag == "bright_red"@ {
        Some("bright red"@)
    } else if tag == "bright_green"@ {
        Some("bright green"@)
    } else if tag == "bright_blue"@ {
        Some("bright blue"@)
    } else if tag == "bright_cyan"@ {
        Some("bright cyan"@)
    } else if tag == "bright_magenta"@ {
        Some("bright magenta"@)
    } else if tag == "bright_yellow"@ {
        Some("bright yellow"@)
    } else if tag == "bright_black"@ {
        Some("bright black"@)
    } else if tag == "bright_white"@ {
        Some("bright white"@)
    } else {
        None
    }
}

/// Whether `tag` is one of the color tags.
pub open spec fn is_color(tag: Seq<char>) -> bool {
    hue_of(tag) is Some
}

/// The name under which the color of `color` is painted, or `None`
/// where `color` is no color tag.
pub fn color_name(color: &str) -> (hue: Option<&'static str>)
    ensures
        match hue {
            Some(name) => hue_of(color@) == Some(name@),
            None => hue_of(color@) is None,
        },
{
    if same_text(color, "red") {
        Some("red")
    } else if same_text(color, "green") {
        Some("green")
    } else if same_text(color, "blue") {
        Some("blue")
    } else if same_text(color, "cyan") {
        Some("cyan")
    } else if same_text(color, "magenta") {
        Some("magenta")
    } else if same_text(color, "yellow") {
        Some("yellow")
    } else if same_text(color, "black") {
        Some("black")
    } else if same_text(color, "white") {
        Some("white")
    } else if same_text(color, "purple") {
        Some("purple")
    } else if same_text(color, "bright_red") {
        Some("bright red")
    } else if same_text(color, "bright_green") {
        Some("bright green")
    } else if same_text(color, "bright_blue") {
        Some("bright blue")
    } else if same_text(color, "bright_cyan") {
        Some("bright cyan")
    } else if same_text(color, "bright_magenta") {
        Some("bright magenta")
    } else if same_text(color, "bright_yellow") {
        Some("bright yellow")
    } else if same_text(color, "bright_black") {
        Some("bright black")
    } else if same_text(color, "bright_white") {
        Some("bright white")
    } else {
        None
    }
}

/// The styled string of `input` under the tag `color`: painted where the
/// tag names a color, and without color where it names none.
pub open spec fn styled_as(input: Seq<char>, color: Seq<char>) -> ColoredString {
    match hue_of(color) {
        Some(hue) => tinted(input, hue),
        None => untinted(input),
    }
}

/// `input` in the color that `color` names; without color where `color`
/// is no color tag.
pub fn color_string(input: &String, color: &str) -> (styled: ColoredString)
    ensures
        styled == styled_as(input@, color@),
{
    match color_name(color) {
        Some(hue) => tint(input.as_str(), hue),
        None => plain(input.as_str()),
    }
}

/// `painted` behind `label`.
pub fn labelled(label: &str, painted: &str) -> (line: String)
    ensures
        line@ == label@ + painted@,
{
    let mut line = String::from_str(label);
    line.append(painted);
    line
}

/// What introduces the report of a failure of kind `kind`.
pub open spec fn error_heading(kind: Seq<char>) -> Seq<char> {
    "ERROR: "@ + kind + " - \n"@
}

/// What introduces the report of a failure of kind `kind`.
pub fn error_label(kind: &str) -> (label: String)
    ensures
        label@ == error_heading(kind@),
{
    let mut label = String::from_str("ERROR: ");
    label.append(kind);
    label.append(" - \n");
    label
}

/// Whether `line` is `label` followed by `text` as it is displayed in
/// the color of the tag `color`.
pub open spec fn is_painted_line(
    line: Seq<char>,
    label: Seq<char>,
    text: Seq<char>,
    color: Seq<char>,
) -> bool {
    exists|painted: String| #[trigger]
        vstd::string::to_string_from_display_ensures::<ColoredString>(
            &styled_as(text, color),
            painted,
        ) && line == label + painted@
}

/// The report of a failure: its kind behind `ERROR: `, and on the next
/// line its message, in red where the terminal shows colors.
pub fn error_report(failure: &Failure) -> (line: String)
    ensures
        is_painted_line(line@, error_heading(failure@.kind), failure@.message, "red"@),
{
    let styled = color_string(&failure.message, "red");
    let painted = styled.to_string();
    let label = error_label(failure.kind.as_str());
    labelled(label.as_str(), painted.as_str())
}

/// The report of an error: `err` behind `ERROR: `, in red where the
/// terminal shows colors.
pub fn error_note(err: &String) -> (line: String)
    ensures
        is_painted_line(line@, "ERROR: "@, err@, "red"@),
{
    let styled = color_string(err, "red");
    let painted = styled.to_string();
    labelled("ERROR: ", painted.as_str())
}

/// A warning: `warn` behind `WARNING: `, in yellow where the terminal
/// shows colors.
pub fn warning_note(warn: &String) -> (line: String)
    ensures
        is_painted_line(line@, "WARNING: "@, warn@, "yellow"@),
{
    let styled = color_string(warn, "yellow");
    let painted = styled.to_string();
    labelled("WARNING: ", painted.as_str())
}

/// What is reported of a color tag that names no color.
pub fn invalid_color_note(color: &str) -> (line: String)
    ensures
        line@ == color@ + " is not a valid color"@,
{
    labelled(color, " is not a valid color")
}

} // verus!
