//! The tabular model: named columns in the order of their first use, each
//! a sequence of styled cells with the width needed to align them.

use crate::color_str::{ColoredStr, StyledText};
use crate::ordered::{
    column_entries, columns_contains_key, columns_get_index, columns_get_mut, columns_insert,
    columns_len, columns_new, row_entries, row_insert, row_new, Column,
};
use crate::paint::{in_color, left_aligned, pad_styled, ESCAPE};
use crate::utils::{color_name, hue_of, is_color};
use indexmap::IndexMap;
use vstd::prelude::*;
use vstd::string::{StrSliceExecFns, StringExecFns};

verus! {

/// The mathematical value of one column.
pub struct ColumnView {
    pub name: Seq<char>,
    pub cells: Seq<StyledText>,
    pub width: usize,
}

/// The length of a text as the table measures it: the number of bytes of
/// its UTF-8 form.
pub open spec fn text_len(text: Seq<char>) -> usize {
    vstd::utf8::encode_utf8(text).len() as usize
}

/// The larger of two lengths.
pub open spec fn wider(a: usize, b: usize) -> usize {
    if a < b {
        b
    } else {
        a
    }
}

/// The width of a column: the length of its longest text, the label
/// itself included.
pub open spec fn column_width(name: Seq<char>, cells: Seq<StyledText>) -> usize
    decreases cells.len(),
{
    if cells.len() == 0 {
        text_len(name)
    } else {
        wider(column_width(name, cells.drop_last()), text_len(cells.last().content))
    }
}

/// Whether some column of `columns` is named `name`.
pub open spec fn has_column(columns: Seq<ColumnView>, name: Seq<char>) -> bool {
    exists|i: int| 0 <= i < columns.len() && (#[trigger] columns[i]).name == name
}

/// The place of a column named `name`, where there is one.
pub open spec fn column_index(columns: Seq<ColumnView>, name: Seq<char>) -> int {
    choose|i: int| 0 <= i < columns.len() && (#[trigger] columns[i]).name == name
}

/// What a table must satisfy: no two columns share a name, and each
/// column's recorded width is the width of its label and cells.
pub open spec fn well_formed(columns: Seq<ColumnView>) -> bool {
    &&& forall|i: int, j: int|
        0 <= i < j < columns.len() ==> (#[trigger] columns[i]).name != (#[trigger] columns[j]).name
    &&& forall|i: int|
        0 <= i < columns.len() ==> (#[trigger] columns[i]).width == column_width(
            columns[i].name,
            columns[i].cells,
        )
}

/// The columns after one cell was inserted under `name`: the cell is
/// appended to the column of that name, which is created at the end
/// where it does not exist yet, and the column's width grows to the
/// cell's length where that is larger.
pub open spec fn inserted(columns: Seq<ColumnView>, name: Seq<char>, cell: StyledText) -> Seq<
    ColumnView,
> {
    if has_column(columns, name) {
        let i = column_index(columns, name);
        columns.update(
            i,
            ColumnView {
                name,
                cells: columns[i].cells.push(cell),
                width: wider(columns[i].width, text_len(cell.content)),
            },
        )
    } else {
        columns.push(
            ColumnView {
                name,
                cells: seq![cell],
                width: wider(text_len(name), text_len(cell.content)),
            },
        )
    }
}

/// The mathematical value of a stored column under its name.
pub open spec fn column_view(entry: (Seq<char>, Column)) -> ColumnView {
    ColumnView {
        name: entry.0,
        cells: entry.1.cells@.map_values(|cell: ColoredStr| cell@),
        width: entry.1.width,
    }
}

/// The width in which a column of recorded width `width` is laid out:
/// two more, as far as the machine's numbers reach.
pub open spec fn gutter(width: usize) -> usize {
    if width + 2 > usize::MAX {
        usize::MAX
    } else {
        (width + 2) as usize
    }
}

/// `text`, followed by as many spaces as it takes to fill `width`
/// characters; `text` itself where it is that long already.
pub open spec fn padded(text: Seq<char>, width: nat) -> Seq<char> {
    left_aligned(text, width)
}

/// A column's part of the header line: its name padded to the column's
/// layout width.
pub open spec fn header_cell(column: ColumnView) -> Seq<char> {
    padded(column.name, gutter(column.width) as nat)
}

/// The header line: the header cells in column order, and a line feed.
pub open spec fn header_line(columns: Seq<ColumnView>) -> Seq<char> {
    columns.map_values(|column: ColumnView| header_cell(column)).flatten().push('\n')
}

/// A cell as it is written without color: its content padded to the
/// column's layout width.
pub open spec fn plain_text(cell: StyledText, width: usize) -> Seq<char> {
    padded(cell.content, gutter(width) as nat)
}

/// Whether `part` is the cell written out in the layout width `width`.
/// A cell whose tag names no color is written without color. One whose
/// tag names a color is written without color or in that color, as the
/// terminal has it; of such a cell that holds an escape character
/// nothing is said.
pub open spec fn is_cell_text(cell: StyledText, width: usize, part: Seq<char>) -> bool {
    match hue_of(cell.color) {
        None => part == plain_text(cell, width),
        Some(hue) => !cell.content.contains(ESCAPE) ==> part == plain_text(cell, width) || part
            == in_color(hue, plain_text(cell, width)),
    }
}

/// Whether `line` is made of `parts`, one for each column in column
/// order, each the cell of row `index` in that column written out.
pub open spec fn row_parts(
    columns: Seq<ColumnView>,
    index: int,
    parts: Seq<Seq<char>>,
    line: Seq<char>,
) -> bool {
    &&& parts.len() == columns.len()
    &&& line == parts.flatten()
    &&& forall|c: int|
        0 <= c < columns.len() ==> is_cell_text(
            (#[trigger] columns[c]).cells[index],
            columns[c].width,
            parts[c],
        )
}

/// Whether `line` is a line of row `index`: the cells of the row
/// written out, one after the other in column order.
pub open spec fn is_row_line(columns: Seq<ColumnView>, index: int, line: Seq<char>) -> bool {
    exists|parts: Seq<Seq<char>>| #[trigger] row_parts(columns, index, parts, line)
}

/// Whether every column can be laid out: the formatter takes a layout
/// width up to the largest 16-bit number.
pub open spec fn fits_layout(columns: Seq<ColumnView>) -> bool {
    forall|c: int| 0 <= c < columns.len() ==> (#[trigger] columns[c]).width + 2 <= u16::MAX
}

/// The number of rows: the number of cells of the first column.
pub open spec fn row_count(columns: Seq<ColumnView>) -> nat {
    if columns.len() == 0 {
        0
    } else {
        columns[0].cells.len()
    }
}

/// Whether every column has a cell in row `index`.
pub open spec fn has_row(columns: Seq<ColumnView>, index: int) -> bool {
    forall|c: int| 0 <= c < columns.len() ==> 0 <= index < (#[trigger] columns[c]).cells.len()
}

/// Whether every column has a cell in each of the table's rows.
pub open spec fn rows_complete(columns: Seq<ColumnView>) -> bool {
    forall|c: int| 0 <= c < columns.len() ==> row_count(columns) <= (#[trigger] columns[c]).cells.len()
}

/// Row `index` as pairs of a column's name and the content of the
/// row's cell in that column, in column order.
pub open spec fn row_mapping(columns: Seq<ColumnView>, index: int) -> Seq<(Seq<char>, Seq<char>)> {
    columns.map_values(|column: ColumnView| (column.name, column.cells[index].content))
}

/// The color tags of row `index`, in column order.
pub open spec fn row_colors(columns: Seq<ColumnView>, index: int) -> Seq<Seq<char>> {
    columns.map_values(|column: ColumnView| column.cells[index].color)
}

/// The color tags of all cells, row by row.
pub open spec fn cell_colors(columns: Seq<ColumnView>) -> Seq<Seq<char>> {
    Seq::new(row_count(columns), |i: int| row_colors(columns, i)).flatten()
}

/// The color tags that name no color, one for each cell that carries
/// one, row by row.
pub open spec fn unknown_colors(columns: Seq<ColumnView>) -> Seq<Seq<char>> {
    cell_colors(columns).filter(|tag: Seq<char>| !is_color(tag))
}

/// The texts of a sequence of strings.
pub open spec fn texts(strings: Seq<String>) -> Seq<Seq<char>> {
    strings.map_values(|text: String| text@)
}

/// Why a table has no row lines.
#[derive(Clone, Copy, Debug, PartialEq, Eq, Structural)]
pub enum TableError {
    /// The table has no column.
    NoValues,
    /// A column is too wide to be laid out.
    TooWide,
}

/// Whether a table has row lines, and why not where it has none.
pub open spec fn row_lines_of(columns: Seq<ColumnView>) -> Result<(), TableError> {
    if columns.len() == 0 {
        Err(TableError::NoValues)
    } else if !fits_layout(columns) {
        Err(TableError::TooWide)
    } else {
        Ok(())
    }
}

/// A table of styled text.
pub struct Table {
    columns: IndexMap<String, Column>,
}

impl View for Table {
    type V = Seq<ColumnView>;

    closed spec fn view(&self) -> Seq<ColumnView> {
        column_entries(self.columns).map_values(|entry: (Seq<char>, Column)| column_view(entry))
    }
}

impl Default for Table {
    /// A table without columns.
    fn default() -> (table: Self)
        ensures
            table@ == Seq::<ColumnView>::empty(),
            table.wf(),
    {
        Table::new()
    }
}

impl Table {
    /// Whether the table is well formed. Every table that this module
    /// hands out is.
    pub open spec fn wf(&self) -> bool {
        well_formed(self@)
    }

    /// A table without columns.
    pub fn new() -> (table: Self)
        ensures
            table@ == Seq::<ColumnView>::empty(),
            table.wf(),
    {
        Table { columns: columns_new() }
    }

    /// Appends `value` to the column `key`, creating the column on first
    /// use.
    pub fn insert(&mut self, key: &str, value: &ColoredStr)
        requires
            old(self).wf(),
        ensures
            final(self)@ == inserted(old(self)@, key@, value@),
            final(self).wf(),
    {
        let ghost before = self@;
        let ghost stored = column_entries(self.columns);
        if !columns_contains_key(&self.columns, key) {
            let fresh = Column { cells: Vec::new(), width: key.len() };
            columns_insert(&mut self.columns, String::from_str(key), fresh);
            proof {
                assert(fresh.cells@.map_values(|cell: ColoredStr| cell@) == Seq::<
                    StyledText,
                >::empty());
                assert(self@ == before.push(
                    ColumnView { name: key@, cells: Seq::empty(), width: text_len(key@) },
                ));
                assert forall|i: int| 0 <= i < before.len() implies (#[trigger] before[i]).name
                    != key@ by {
                    assert(before[i].name == stored[i].0);
                }
            }
        } else {
            proof {
                let at = choose|i: int| 0 <= i < stored.len() && (#[trigger] stored[i]).0 == key@;
                assert(before[at].name == key@);
            }
        }
        let ghost middle = self@;
        let ghost held = column_entries(self.columns);
        proof {
            lemma_created(before, key@);
            let at = column_index(middle, key@);
            assert(middle[at].name == held[at].0);
        }
        match columns_get_mut(&mut self.columns, key) {
            Some(column) => {
                let ghost cells_before = column.cells@;
                column.cells.push(value.clone());
                let length = value.get_content().as_str().len();
                if column.width < length {
                    column.width = length;
                }
                assert(column.cells@.map_values(|cell: ColoredStr| cell@)
                    == cells_before.map_values(|cell: ColoredStr| cell@).push(value@));
            },
            None => {
                assert(false);
            },
        }
        proof {
            let at = choose|i: int|
                0 <= i < held.len() && (#[trigger] held[i]).0 == key@ && column_entries(
                    self.columns,
                ) == held.update(i, (key@, column_entries(self.columns)[i].1));
            assert(middle[at].name == key@);
            assert(column_index(middle, key@) == at) by {
                let other = column_index(middle, key@);
                assert(middle[other].name == key@);
                assert(well_formed(middle));
            }
            lemma_inserted_well_formed(before, key@, value@);
            assert(self@ =~= inserted(before, key@, value@));
        }
    }

    /// The header line: each column's name, left-aligned in the column's
    /// layout width, then a line feed.
    pub fn get_headers(&self) -> (headers: String)
        ensures
            headers@ == header_line(self@),
    {
        let mut headers = String::new();
        let count = columns_len(&self.columns);
        let ghost cells = self@.map_values(|column: ColumnView| header_cell(column));
        let mut at: usize = 0;
        while at < count
            invariant
                count == self@.len(),
                cells == self@.map_values(|column: ColumnView| header_cell(column)),
                at <= count,
                headers@ == cells.take(at as int).flatten(),
            decreases count - at,
        {
            match columns_get_index(&self.columns, at) {
                Some((name, column)) => {
                    let cell = pad_to(name.as_str(), column.width.saturating_add(2));
                    headers.append(cell.as_str());
                    proof {
                        assert(cell@ == header_cell(self@[at as int]));
                        assert(cells.take(at + 1) == cells.take(at as int).push(cells[at as int]));
                        cells.take(at as int).lemma_flatten_push(cells[at as int]);
                    }
                },
                None => {},
            }
            at += 1;
        }
        headers.append("\n");
        proof {
            reveal_strlit("\n");
            assert("\n"@ == seq!['\n']);
            assert(cells.take(count as int) == cells);
        }
        headers
    }

    /// The number of rows: the number of cells of the first column, and
    /// zero for a table without columns.
    pub fn rows(&self) -> (count: usize)
        ensures
            count == row_count(self@),
    {
        match columns_get_index(&self.columns, 0) {
            Some((_, column)) => column.cells.len(),
            None => 0,
        }
    }

    /// Whether every column has a cell in row `index`.
    pub fn has_row(&self, index: usize) -> (complete: bool)
        ensures
            complete == has_row(self@, index as int),
    {
        let count = columns_len(&self.columns);
        let mut at: usize = 0;
        while at < count
            invariant
                count == self@.len(),
                at <= count,
                forall|c: int| 0 <= c < at ==> index < (#[trigger] self@[c]).cells.len(),
            decreases count - at,
        {
            match columns_get_index(&self.columns, at) {
                Some((_, column)) => {
                    if index >= column.cells.len() {
                        assert(!(index < self@[at as int].cells.len()));
                        return false;
                    }
                },
                None => {},
            }
            at += 1;
        }
        true
    }

    /// Whether every column has a cell in each of the table's rows.
    pub fn is_complete(&self) -> (complete: bool)
        ensures
            complete == rows_complete(self@),
    {
        let rows = self.rows();
        if rows == 0 {
            true
        } else {
            self.has_row(rows - 1)
        }
    }

    /// Whether every column can be laid out.
    pub fn fits_layout(&self) -> (fits: bool)
        ensures
            fits == fits_layout(self@),
    {
        let count = columns_len(&self.columns);
        let mut at: usize = 0;
        while at < count
            invariant
                count == self@.len(),
                at <= count,
                forall|c: int| 0 <= c < at ==> (#[trigger] self@[c]).width + 2 <= u16::MAX,
            decreases count - at,
        {
            match columns_get_index(&self.columns, at) {
                Some((_, column)) => {
                    if column.width > 65533 {
                        assert(!(self@[at as int].width + 2 <= u16::MAX));
                        return false;
                    }
                },
                None => {},
            }
            at += 1;
        }
        true
    }

    /// The row lines: for each row, every column's cell in that row,
    /// shown in its color and left-aligned in the column's layout width.
    /// A table without columns has no row lines and gives `NoValues`;
    /// one with a column too wide to be laid out gives `TooWide`.
    pub fn get_values(&self) -> (lines: Result<Vec<String>, TableError>)
        requires
            rows_complete(self@),
        ensures
            match lines {
                Ok(rows) => row_lines_of(self@) is Ok && rows.len() == row_count(self@) && forall|
                    i: int,
                | 0 <= i < rows.len() ==> is_row_line(self@, i, (#[trigger] rows[i])@),
                Err(error) => row_lines_of(self@) == Err::<(), TableError>(error),
            },
    {
        let count = columns_len(&self.columns);
        if count == 0 {
            return Err(TableError::NoValues);
        }
        if !self.fits_layout() {
            return Err(TableError::TooWide);
        }
        let total = self.rows();
        let mut rows: Vec<String> = Vec::new();
        let mut i: usize = 0;
        while i < total
            invariant
                count == self@.len(),
                total == row_count(self@),
                rows_complete(self@),
                fits_layout(self@),
                i <= total,
                rows.len() == i,
                forall|j: int| 0 <= j < i ==> is_row_line(self@, j, (#[trigger] rows[j])@),
            decreases total - i,
        {
            let mut row = String::new();
            let ghost mut parts = Seq::<Seq<char>>::empty();
            let mut at: usize = 0;
            while at < count
                invariant
                    count == self@.len(),
                    total == row_count(self@),
                    rows_complete(self@),
                    fits_layout(self@),
                    i < total,
                    at <= count,
                    parts.len() == at,
                    row@ == parts.flatten(),
                    forall|c: int|
                        0 <= c < at ==> is_cell_text(
                            (#[trigger] self@[c]).cells[i as int],
                            self@[c].width,
                            parts[c],
                        ),
                decreases count - at,
            {
                match columns_get_index(&self.columns, at) {
                    Some((_, column)) => {
                        assert(row_count(self@) <= self@[at as int].cells.len());
                        assert(self@[at as int].width + 2 <= u16::MAX);
                        let styled = column.cells[i].as_colored_string();
                        let cell = pad_styled(&styled, column.width.saturating_add(2));
                        row.append(cell.as_str());
                        proof {
                            assert(is_cell_text(
                                self@[at as int].cells[i as int],
                                self@[at as int].width,
                                cell@,
                            ));
                            parts.lemma_flatten_push(cell@);
                            parts = parts.push(cell@);
                        }
                    },
                    None => {},
                }
                at += 1;
            }
            proof {
                assert(row_parts(self@, i as int, parts, row@));
            }
            rows.push(row);
            i += 1;
        }
        Ok(rows)
    }

    /// Row `index` as a mapping from each column's name to the content of
    /// the row's cell in that column, in column order. The index is one
    /// of the table's rows, so a table without columns has none to give.
    pub fn get(&self, index: u32) -> (row: IndexMap<String, String>)
        requires
            self.wf(),
            index < row_count(self@),
            has_row(self@, index as int),
        ensures
            row_entries(row) == row_mapping(self@, index as int),
    {
        let mut out = row_new();
        let count = columns_len(&self.columns);
        let ghost whole = row_mapping(self@, index as int);
        let mut at: usize = 0;
        while at < count
            invariant
                self.wf(),
                has_row(self@, index as int),
                count == self@.len(),
                whole == row_mapping(self@, index as int),
                at <= count,
                row_entries(out) == whole.take(at as int),
            decreases count - at,
        {
            match columns_get_index(&self.columns, at) {
                Some((name, column)) => {
                    assert(index < self@[at as int].cells.len());
                    let content = column.cells[index as usize].get_content().clone();
                    let ghost before = row_entries(out);
                    let replaced = row_insert(&mut out, name.clone(), content);
                    proof {
                        if replaced is Some {
                            let k = choose|k: int|
                                0 <= k < before.len() && (#[trigger] before[k]).0 == name@;
                            assert(whole[k].0 == self@[k].name);
                            assert(whole[at as int].0 == self@[at as int].name);
                            assert(false);
                        }
                        assert(whole.take(at + 1) == whole.take(at as int).push(whole[at as int]));
                    }
                },
                None => {},
            }
            at += 1;
        }
        proof {
            assert(whole.take(count as int) == whole);
        }
        out
    }

    /// The color tags that name no color, one for each cell that carries
    /// one, row by row: what is to be reported when the rows are shown.
    pub fn invalid_colors(&self) -> (tags: Vec<String>)
        requires
            rows_complete(self@),
        ensures
            texts(tags@) == unknown_colors(self@),
    {
        let count = columns_len(&self.columns);
        let total = self.rows();
        let mut tags: Vec<String> = Vec::new();
        let ghost by_row = Seq::new(row_count(self@), |i: int| row_colors(self@, i));
        let ghost seen = Seq::<Seq<char>>::empty();
        let ghost keep = |tag: Seq<char>| !is_color(tag);
        proof {
            reveal(Seq::filter);
            assert(by_row.take(0).flatten() == seen);
        }
        let mut i: usize = 0;
        while i < total
            invariant
                count == self@.len(),
                total == row_count(self@),
                rows_complete(self@),
                by_row == Seq::new(row_count(self@), |i: int| row_colors(self@, i)),
                keep == |tag: Seq<char>| !is_color(tag),
                i <= total,
                seen == by_row.take(i as int).flatten(),
                texts(tags@) == seen.filter(keep),
            decreases total - i,
        {
            let ghost start = seen;
            let ghost row = row_colors(self@, i as int);
            let mut at: usize = 0;
            while at < count
                invariant
                    count == self@.len(),
                    total == row_count(self@),
                    rows_complete(self@),
                    keep == |tag: Seq<char>| !is_color(tag),
                    row == row_colors(self@, i as int),
                    i < total,
                    at <= count,
                    seen == start + row.take(at as int),
                    texts(tags@) == seen.filter(keep),
                decreases count - at,
            {
                match columns_get_index(&self.columns, at) {
                    Some((_, column)) => {
                        assert(row_count(self@) <= self@[at as int].cells.len());
                        let tag = column.cells[i].color_tag();
                        let ghost longer = seen.push(tag@);
                        proof {
                            reveal(Seq::filter);
                            assert(longer.drop_last() == seen);
                            assert(row.take(at + 1) == row.take(at as int).push(row[at as int]));
                            assert(longer == start + row.take(at + 1));
                        }
                        if color_name(tag.as_str()).is_none() {
                            let ghost had = tags@;
                            tags.push(tag.clone());
                            assert(texts(tags@) == texts(had).push(tag@));
                        }
                        proof {
                            seen = longer;
                        }
                    },
                    None => {},
                }
                at += 1;
            }
            proof {
                assert(row.take(count as int) == row);
                assert(by_row.take(i + 1) == by_row.take(i as int).push(by_row[i as int]));
                by_row.take(i as int).lemma_flatten_push(by_row[i as int]);
            }
            i += 1;
        }
        proof {
            assert(by_row.take(total as int) == by_row);
        }
        tags
    }
}

/// `text`, left-aligned in `width` characters: followed by the spaces
/// that fill it up, and unchanged where it is that long already.
pub fn pad_to(text: &str, width: usize) -> (out: String)
    ensures
        out@ == padded(text@, width as nat),
{
    let mut out = String::from_str(text);
    let mut filled = text.unicode_len();
    let ghost start = filled;
    while filled < width
        invariant
            start == text@.len(),
            start <= filled,
            filled <= width || filled == start,
            out@ == text@ + Seq::new((filled - start) as nat, |i: int| ' '),
        decreases width - filled,
    {
        out.append(" ");
        proof {
            reveal_strlit(" ");
            assert(" "@ == seq![' ']);
            assert(Seq::new((filled - start) as nat, |i: int| ' ').push(' ') == Seq::new(
                (filled + 1 - start) as nat,
                |i: int| ' ',
            ));
        }
        filled += 1;
    }
    proof {
        assert(text@ + Seq::new(0nat, |i: int| ' ') == text@);
    }
    out
}

/// The columns once a column named `name` is sure to exist: an empty one
/// is added at the end where there was none.
pub open spec fn created(columns: Seq<ColumnView>, name: Seq<char>) -> Seq<ColumnView> {
    if has_column(columns, name) {
        columns
    } else {
        columns.push(ColumnView { name, cells: Seq::empty(), width: text_len(name) })
    }
}

/// Creating a column keeps a table well formed, and the column is there
/// afterwards.
pub proof fn lemma_created(columns: Seq<ColumnView>, name: Seq<char>)
    requires
        well_formed(columns),
    ensures
        well_formed(created(columns, name)),
        has_column(created(columns, name), name),
{
    let after = created(columns, name);
    if !has_column(columns, name) {
        assert(after[columns.len() as int].name == name);
        assert forall|a: int, b: int| 0 <= a < b < after.len() implies (#[trigger] after[a]).name
            != (#[trigger] after[b]).name by {
            assert(after[a] == columns[a]);
            if b < columns.len() {
                assert(after[b] == columns[b]);
            }
        }
        assert forall|j: int| 0 <= j < after.len() implies (#[trigger] after[j]).width
            == column_width(after[j].name, after[j].cells) by {
            if j < columns.len() {
                assert(after[j] == columns[j]);
            }
        }
    }
}

/// Inserting a cell keeps a table well formed.
pub proof fn lemma_inserted_well_formed(columns: Seq<ColumnView>, name: Seq<char>, cell: StyledText)
    requires
        well_formed(columns),
    ensures
        well_formed(inserted(columns, name, cell)),
{
    let after = inserted(columns, name, cell);
    if has_column(columns, name) {
        let i = column_index(columns, name);
        assert(columns[i].cells.push(cell).drop_last() == columns[i].cells);
        assert forall|j: int| 0 <= j < after.len() implies (#[trigger] after[j]).width
            == column_width(after[j].name, after[j].cells) by {
            if j != i {
                assert(after[j] == columns[j]);
            }
        }
        assert forall|a: int, b: int| 0 <= a < b < after.len() implies (#[trigger] after[a]).name
            != (#[trigger] after[b]).name by {
            assert(after[a].name == columns[a].name);
            assert(after[b].name == columns[b].name);
        }
    } else {
        assert(seq![cell].drop_last() == Seq::<StyledText>::empty());
        assert forall|j: int| 0 <= j < after.len() implies (#[trigger] after[j]).width
            == column_width(after[j].name, after[j].cells) by {
            if j < columns.len() {
                assert(after[j] == columns[j]);
            } else {
                reveal_with_fuel(column_width, 2);
            }
        }
        assert forall|a: int, b: int| 0 <= a < b < after.len() implies (#[trigger] after[a]).name
            != (#[trigger] after[b]).name by {
            assert(after[a] == columns[a]);
            if b < columns.len() {
                assert(after[b] == columns[b]);
            }
        }
    }
}

/// In a well-formed table a column is found under its own name, at its
/// own place.
pub proof fn lemma_column_index(columns: Seq<ColumnView>, c: int)
    requires
        well_formed(columns),
        0 <= c < columns.len(),
    ensures
        has_column(columns, columns[c].name),
        column_index(columns, columns[c].name) == c,
{
    let name = columns[c].name;
    let found = column_index(columns, name);
    assert(columns[found].name == name);
    if found < c {
        assert(columns[found].name != columns[c].name);
    } else if found > c {
        assert(columns[c].name != columns[found].name);
    }
}

/// The width of a column is at least the length of its label and at
/// least the length of each of its cells.
pub proof fn lemma_column_width_covers(name: Seq<char>, cells: Seq<StyledText>)
    ensures
        column_width(name, cells) >= text_len(name),
        forall|i: int|
            0 <= i < cells.len() ==> column_width(name, cells) >= text_len(
                (#[trigger] cells[i]).content,
            ),
    decreases cells.len(),
{
    if cells.len() > 0 {
        lemma_column_width_covers(name, cells.drop_last());
        assert forall|i: int| 0 <= i < cells.len() implies column_width(name, cells) >= text_len(
            (#[trigger] cells[i]).content,
        ) by {
            if i < cells.len() - 1 {
                assert(cells.drop_last()[i] == cells[i]);
            }
        }
    }
}

/// In a well-formed table every column is at least as wide as its label
/// and as each of its cells is long.
pub proof fn lemma_width_covers(columns: Seq<ColumnView>, c: int, i: int)
    requires
        well_formed(columns),
        0 <= c < columns.len(),
        0 <= i < columns[c].cells.len(),
    ensures
        columns[c].width >= text_len(columns[c].name),
        columns[c].width >= text_len(columns[c].cells[i].content),
{
    lemma_column_width_covers(columns[c].name, columns[c].cells);
}

/// Inserting a cell never narrows a column: every column that was there
/// is still there, under its name and at its place, and at least as
/// wide as before.
pub proof fn lemma_inserted_widens(columns: Seq<ColumnView>, name: Seq<char>, cell: StyledText, c: int)
    requires
        0 <= c < columns.len(),
    ensures
        inserted(columns, name, cell).len() >= columns.len(),
        inserted(columns, name, cell)[c].name == columns[c].name,
        inserted(columns, name, cell)[c].width >= columns[c].width,
{
}

/// A row in which no cell's tag names a color has one line only: its
/// cells written without color, in column order.
pub proof fn lemma_uncolored_row(columns: Seq<ColumnView>, index: int, line: Seq<char>)
    requires
        is_row_line(columns, index, line),
        forall|c: int|
            0 <= c < columns.len() ==> !is_color((#[trigger] columns[c]).cells[index].color),
    ensures
        line == columns.map_values(
            |column: ColumnView| plain_text(column.cells[index], column.width),
        ).flatten(),
{
    let parts = choose|parts: Seq<Seq<char>>| #[trigger] row_parts(columns, index, parts, line);
    assert forall|c: int| 0 <= c < columns.len() implies parts[c] == plain_text(
        (#[trigger] columns[c]).cells[index],
        columns[c].width,
    ) by {
        assert(is_cell_text(columns[c].cells[index], columns[c].width, parts[c]));
    }
    assert(parts == columns.map_values(
        |column: ColumnView| plain_text(column.cells[index], column.width),
    ));
}

/// Whether the length of `text` is a number of the machine, so that
/// [`text_len`] is the number of its bytes.
pub open spec fn measured(text: Seq<char>) -> bool {
    vstd::utf8::encode_utf8(text).len() <= usize::MAX
}

/// A text has at least as many bytes as it has characters.
pub proof fn lemma_bytes_cover_chars(text: Seq<char>)
    ensures
        text.len() <= vstd::utf8::encode_utf8(text).len(),
    decreases text.len(),
{
    if text.len() > 0 {
        lemma_bytes_cover_chars(text.drop_first());
    }
}

/// A column's header cell and each of its cells written without color
/// are exactly as long as the column's layout width: the cells of a
/// column line up under its label.
pub proof fn lemma_cells_line_up(columns: Seq<ColumnView>, c: int, i: int)
    requires
        well_formed(columns),
        0 <= c < columns.len(),
        0 <= i < columns[c].cells.len(),
        measured(columns[c].name),
        measured(columns[c].cells[i].content),
    ensures
        header_cell(columns[c]).len() == gutter(columns[c].width),
        plain_text(columns[c].cells[i], columns[c].width).len() == gutter(columns[c].width),
{
    lemma_width_covers(columns, c, i);
    lemma_bytes_cover_chars(columns[c].name);
    lemma_bytes_cover_chars(columns[c].cells[i].content);
}

proof fn lemma_flatten_same_length(a: Seq<Seq<char>>, b: Seq<Seq<char>>)
    requires
        a.len() == b.len(),
        forall|k: int| 0 <= k < a.len() ==> (#[trigger] a[k]).len() == b[k].len(),
    ensures
        a.flatten().len() == b.flatten().len(),
    decreases a.len(),
{
    if a.len() > 0 {
        lemma_flatten_same_length(a.drop_last(), b.drop_last());
        a.drop_last().lemma_flatten_push(a.last());
        b.drop_last().lemma_flatten_push(b.last());
        assert(a.drop_last().push(a.last()) == a);
        assert(b.drop_last().push(b.last()) == b);
    } else {
        assert(a == b);
    }
}

/// A row written without color is as long as the header line without
/// its line feed.
pub proof fn lemma_row_as_long_as_header(columns: Seq<ColumnView>, i: int)
    requires
        well_formed(columns),
        has_row(columns, i),
        forall|c: int| 0 <= c < columns.len() ==> measured((#[trigger] columns[c]).name),
        forall|c: int|
            0 <= c < columns.len() ==> measured((#[trigger] columns[c]).cells[i].content),
    ensures
        columns.map_values(
            |column: ColumnView| plain_text(column.cells[i], column.width),
        ).flatten().len() + 1 == header_line(columns).len(),
{
    let cells = columns.map_values(|column: ColumnView| plain_text(column.cells[i], column.width));
    let labels = columns.map_values(|column: ColumnView| header_cell(column));
    assert forall|k: int| 0 <= k < cells.len() implies (#[trigger] cells[k]).len()
        == labels[k].len() by {
        let column = columns[k];
        assert(0 <= i < column.cells.len());
        lemma_cells_line_up(columns, k, i);
    }
    lemma_flatten_same_length(cells, labels);
}

} // verus!
