//! Styled text: a content string paired with a logical color tag.

use crate::utils::{color_string, styled_as, DEF_COLOR};
use colored::ColoredString;
use vstd::prelude::*;
use vstd::string::StringExecFns;

verus! {

/// Text whose content can still change, paired with the tag of the color
/// it is to be shown in.
pub struct ColoredStr {
    content: String,
    color: String,
}

/// The mathematical value of a [`ColoredStr`].
pub struct StyledText {
    pub content: Seq<char>,
    pub color: Seq<char>,
}

impl View for ColoredStr {
    type V = StyledText;

    closed spec fn view(&self) -> StyledText {
        StyledText { content: self.content@, color: self.color@ }
    }
}

impl Clone for ColoredStr {
    fn clone(&self) -> (copy: Self)
        ensures
            copy@ == self@,
    {
        ColoredStr { content: self.content.clone(), color: self.color.clone() }
    }
}

/// The tag that [`ColoredStr::new`] gives to text.
pub open spec fn default_color() -> Seq<char> {
    DEF_COLOR@
}

impl ColoredStr {
    /// Text in the default color.
    pub fn new(input_string: String) -> (text: Self)
        ensures
            text@.content == input_string@,
            text@.color == default_color(),
    {
        ColoredStr { content: input_string, color: String::from_str(DEF_COLOR) }
    }

    /// Text in the color that `input_color` names.
    pub fn new_colored(input_string: String, input_color: String) -> (text: Self)
        ensures
            text@.content == input_string@,
            text@.color == input_color@,
    {
        ColoredStr { content: input_string, color: input_color }
    }

    /// The content.
    pub fn get_content(&self) -> (content: &String)
        ensures
            content@ == self@.content,
    {
        &self.content
    }

    /// The tag of the color that the text is to be shown in.
    pub fn color_tag(&self) -> (color: &String)
        ensures
            color@ == self@.color,
    {
        &self.color
    }

    /// The text as the terminal is to show it: painted where its tag
    /// names a color, and without color where it names none.
    pub fn as_colored_string(&self) -> (styled: ColoredString)
        ensures
            styled == styled_as(self@.content, self@.color),
    {
        color_string(&self.content, self.color.as_str())
    }

    /// Replaces the content.
    pub fn set_content(&mut self, new_content: String)
        ensures
            final(self)@.content == new_content@,
            final(self)@.color == old(self)@.color,
    {
        self.content = new_content;
    }

    /// Appends `new_content` to the content.
    pub fn append(&mut self, new_content: &str)
        ensures
            final(self)@.content == old(self)@.content + new_content@,
            final(self)@.color == old(self)@.color,
    {
        self.content.append(new_content);
    }

    /// Empties the content; the color stays.
    pub fn clear(&mut self)
        ensures
            final(self)@.content == Seq::<char>::empty(),
            final(self)@.color == old(self)@.color,
    {
        self.set_content(String::new());
    }

    /// Replaces the color tag. Any text is taken: one that names no
    /// color leaves the text without color when it is shown.
    pub fn set_color(&mut self, input_color: String)
        ensures
            final(self)@.color == input_color@,
            final(self)@.content == old(self)@.content,
    {
        self.color = input_color;
    }
}

} // verus!
