//! What the presenter shows of a table, and what it makes of the user's
//! answer. Printing and the interactive menu itself are the caller's.

use crate::table::{
    header_line, is_row_line, row_count, row_lines_of, rows_complete, text_len, texts, Table,
};
use vstd::prelude::*;
use vstd::string::StringExecFns;

verus! {

/// What came of offering a table for selection.
#[derive(Clone, Copy, Debug, PartialEq, Eq, Structural)]
pub enum Selection {
    /// The row with this index was chosen.
    Selected(u32),
    /// Nothing was chosen: the user cancelled, or there was nothing to
    /// choose from.
    Cancelled,
}

/// What to show for an interactive selection.
pub enum Presentation {
    /// The text `above` to print first, then a menu that offers
    /// `options`, one for each row and in row order.
    Menu { above: String, options: Vec<String> },
    /// The text `above` to print, and nothing to choose from.
    Nothing { above: String },
}

/// A rule as long as `line`: one hyphen for each byte of it.
pub open spec fn rule_of(line: Seq<char>) -> Seq<char> {
    Seq::new(text_len(line) as nat, |i: int| '-')
}

/// What stands above the rows of a listing: the header line, then a
/// rule as long as it, on a line of its own.
pub open spec fn heading(headers: Seq<char>) -> Seq<char> {
    headers + rule_of(headers).push('\n')
}

/// The text of a table printed as a whole: the header line, then every
/// row line with a line feed after it.
pub open spec fn printed(headers: Seq<char>, rows: Seq<Seq<char>>) -> Seq<char> {
    headers + rows.map_values(|row: Seq<char>| row.push('\n')).flatten()
}

/// What a presentation and the menu's answer amount to: the index that
/// the menu gave, where a menu was shown and the index is one of its
/// options; cancelled otherwise.
pub open spec fn selection_from(options: Option<nat>, answer: Option<usize>) -> Selection {
    match (options, answer) {
        (Some(count), Some(index)) => if index < count && index <= u32::MAX {
            Selection::Selected(index as u32)
        } else {
            Selection::Cancelled
        },
        _ => Selection::Cancelled,
    }
}

impl Presentation {
    /// The number of options, where there is a menu.
    pub open spec fn option_count(&self) -> Option<nat> {
        match self {
            Presentation::Menu { options, .. } => Some(options.len() as nat),
            Presentation::Nothing { .. } => None,
        }
    }

    /// The text to print first.
    pub open spec fn above_text(&self) -> Seq<char> {
        match self {
            Presentation::Menu { above, .. } => above@,
            Presentation::Nothing { above } => above@,
        }
    }
}

/// A rule as long as `line`.
pub fn separator(line: &str) -> (rule: String)
    ensures
        rule@ == rule_of(line@),
{
    let length = line.len();
    let mut rule = String::new();
    let mut drawn: usize = 0;
    while drawn < length
        invariant
            drawn <= length,
            rule@ == Seq::new(drawn as nat, |i: int| '-'),
        decreases length - drawn,
    {
        rule.append("-");
        proof {
            reveal_strlit("-");
            assert("-"@ == seq!['-']);
            assert(Seq::new(drawn as nat, |i: int| '-').push('-') == Seq::new(
                (drawn + 1) as nat,
                |i: int| '-',
            ));
        }
        drawn += 1;
    }
    rule
}

/// The text of a table printed as a whole, from its header line and its
/// row lines.
pub fn table_text(headers: &str, rows: &Vec<String>) -> (text: String)
    ensures
        text@ == printed(headers@, texts(rows@)),
{
    let mut text = String::from_str(headers);
    let ghost lines = texts(rows@).map_values(|row: Seq<char>| row.push('\n'));
    let mut at: usize = 0;
    proof {
        assert(lines.take(0).flatten() == Seq::<char>::empty());
    }
    while at < rows.len()
        invariant
            at <= rows.len(),
            lines == texts(rows@).map_values(|row: Seq<char>| row.push('\n')),
            text@ == headers@ + lines.take(at as int).flatten(),
        decreases rows.len() - at,
    {
        text.append(rows[at].as_str());
        text.append("\n");
        proof {
            reveal_strlit("\n");
            assert("\n"@ == seq!['\n']);
            assert(lines[at as int] == rows[at as int]@ + seq!['\n']);
            assert(lines.take(at + 1) == lines.take(at as int).push(lines[at as int]));
            lines.take(at as int).lemma_flatten_push(lines[at as int]);
        }
        at += 1;
    }
    proof {
        assert(lines.take(rows.len() as int) == lines);
    }
    text
}

/// What to show of `table` for an interactive selection, from top to
/// bottom: the header line, a rule below it, and then the row lines as
/// the options of a menu. Where the table has no row lines, because it
/// has no column or one that cannot be laid out, there is no menu.
pub fn present_interactive(table: &Table) -> (shown: Presentation)
    requires
        rows_complete(table@),
    ensures
        shown.above_text() == heading(header_line(table@)),
        row_lines_of(table@) is Err ==> shown is Nothing,
        row_lines_of(table@) is Ok ==> (shown matches Presentation::Menu { options, .. }
            && options.len() == row_count(table@) && forall|i: int|
            0 <= i < options.len() ==> is_row_line(table@, i, (#[trigger] options[i])@)),
{
    let headers = table.get_headers();
    let rule = separator(headers.as_str());
    let mut above = headers;
    above.append(rule.as_str());
    above.append("\n");
    proof {
        reveal_strlit("\n");
        assert("\n"@ == seq!['\n']);
    }
    match table.get_values() {
        Ok(options) => Presentation::Menu { above, options },
        Err(_) => Presentation::Nothing { above },
    }
}

/// What the user chose: the index that the menu answered with, where a
/// menu was shown and the answer is one of its options; cancelled where
/// the menu was left without an answer or nothing was shown.
pub fn selection_of(shown: &Presentation, answer: Option<usize>) -> (selection: Selection)
    ensures
        selection == selection_from(shown.option_count(), answer),
{
    match shown {
        Presentation::Menu { options, .. } => match answer {
            Some(index) => if index < options.len() && index <= u32::MAX as usize {
                Selection::Selected(index as u32)
            } else {
                Selection::Cancelled
            },
            None => Selection::Cancelled,
        },
        Presentation::Nothing { .. } => Selection::Cancelled,
    }
}

/// The text of a table printed as a whole: its header line, then its
/// row lines, each with a line feed after it; the header line alone
/// where the table has no row lines.
pub fn present_static(table: &Table) -> (text: String)
    requires
        rows_complete(table@),
    ensures
        row_lines_of(table@) is Ok ==> exists|rows: Seq<Seq<char>>|
            rows.len() == row_count(table@) && text@ == #[trigger] printed(
                header_line(table@),
                rows,
            ) && forall|i: int| 0 <= i < rows.len() ==> is_row_line(table@, i, #[trigger] rows[i]),
        row_lines_of(table@) is Err ==> text@ == header_line(table@),
{
    let headers = table.get_headers();
    let rows = match table.get_values() {
        Ok(rows) => rows,
        Err(_) => Vec::new(),
    };
    let text = table_text(headers.as_str(), &rows);
    proof {
        assert(text@ == printed(header_line(table@), texts(rows@)));
        if row_lines_of(table@) is Err {
            assert(texts(rows@).map_values(|row: Seq<char>| row.push('\n')).flatten() == Seq::<
                char,
            >::empty());
        }
    }
    text
}

} // verus!
