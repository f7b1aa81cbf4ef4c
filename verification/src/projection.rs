//! The projection of a listing into a table: which columns are shown,
//! and what stands in each cell.

use crate::color_str::{default_color, ColoredStr, StyledText};
use crate::listing::{entry_views, Entry, EntryType, EntryView, Timestamp};
use crate::rows::{distinct, fits, grid, lemma_grid_row, lemma_grid_well_formed, with_row};
use crate::table::{
    column_index, has_column, has_row, lemma_column_index, row_count, row_mapping, rows_complete,
    well_formed, ColumnView, Table,
};
use crate::utils::DEF_COLOR;
use crate::units::{date_text, format_bytes, format_date, size_text};
use vstd::prelude::*;
use vstd::string::StringExecFns;

verus! {

/// Which of the optional columns are shown.
#[derive(Clone, Copy, Debug, PartialEq, Eq, Structural)]
pub struct DisplayColumns {
    pub permitions: bool,
    pub creation_date: bool,
    pub modification_date: bool,
    pub size: bool,
}

/// How a listing is shown.
pub struct DisplayConf {
    pub date_format: String,
    pub dir_color: String,
    pub file_color: String,
    pub show: DisplayColumns,
}

/// The mathematical value of a [`DisplayConf`].
pub struct ConfView {
    pub date_format: Seq<char>,
    pub dir_color: Seq<char>,
    pub file_color: Seq<char>,
    pub show: DisplayColumns,
}

impl View for DisplayConf {
    type V = ConfView;

    open spec fn view(&self) -> ConfView {
        ConfView {
            date_format: self.date_format@,
            dir_color: self.dir_color@,
            file_color: self.file_color@,
            show: self.show,
        }
    }
}

impl Default for DisplayConf {
    /// Day, month, year, hour and minute; every column shown; all names
    /// in the default color.
    fn default() -> (conf: Self)
        ensures
            conf@.date_format == "%d/%m/%Y %H:%M"@,
            conf@.dir_color == default_color(),
            conf@.file_color == default_color(),
            conf@.show == (DisplayColumns {
                permitions: true,
                creation_date: true,
                modification_date: true,
                size: true,
            }),
    {
        DisplayConf {
            date_format: String::from_str("%d/%m/%Y %H:%M"),
            dir_color: String::from_str(DEF_COLOR),
            file_color: String::from_str(DEF_COLOR),
            show: DisplayColumns {
                permitions: true,
                creation_date: true,
                modification_date: true,
                size: true,
            },
        }
    }
}

/// An entry with its dates and its size written out.
pub struct EntryText {
    pub permitions: String,
    pub created: String,
    pub modified: String,
    pub size: String,
    pub name: String,
    pub entry_type: EntryType,
}

/// The mathematical value of an [`EntryText`].
pub struct EntryTextView {
    pub permitions: Seq<char>,
    pub created: Seq<char>,
    pub modified: Seq<char>,
    pub size: Seq<char>,
    pub name: Seq<char>,
    pub entry_type: EntryType,
}

impl View for EntryText {
    type V = EntryTextView;

    open spec fn view(&self) -> EntryTextView {
        EntryTextView {
            permitions: self.permitions@,
            created: self.created@,
            modified: self.modified@,
            size: self.size@,
            name: self.name@,
            entry_type: self.entry_type,
        }
    }
}

/// The values of a sequence of written-out entries.
pub open spec fn text_views(texts: Seq<EntryText>) -> Seq<EntryTextView> {
    texts.map_values(|text: EntryText| text@)
}

/// An entry written out under the date pattern `pattern`, or `None`
/// where one of its dates cannot be written.
pub open spec fn written(pattern: Seq<char>, entry: EntryView) -> Option<EntryTextView> {
    match (
        date_text(entry.creation_date.secs, entry.creation_date.nanos, pattern),
        date_text(entry.modification_date.secs, entry.modification_date.nanos, pattern),
    ) {
        (Some(created), Some(modified)) => Some(
            EntryTextView {
                permitions: entry.permitions,
                created,
                modified,
                size: size_text(entry.size),
                name: entry.name,
                entry_type: entry.entry_type,
            },
        ),
        _ => None,
    }
}

/// `item` alone where `on` holds, nothing where it does not.
pub open spec fn optional<A>(on: bool, item: A) -> Seq<A> {
    if on {
        seq![item]
    } else {
        Seq::empty()
    }
}

/// The labels of the columns that are shown, in display order: the
/// optional ones that are switched on, then the name.
pub open spec fn labels(show: DisplayColumns) -> Seq<Seq<char>> {
    optional(show.permitions, "permittions"@) + optional(show.creation_date, "created"@)
        + optional(show.modification_date, "modified"@) + optional(show.size, "size"@)
        + seq!["name"@]
}

/// What is appended to the name of an entry of kind `kind`.
pub open spec fn name_suffix(kind: EntryType) -> Seq<char> {
    match kind {
        EntryType::Directory => "/"@,
        EntryType::Symlink => " -> link"@,
        EntryType::File => Seq::empty(),
    }
}

/// A cell in the default color.
pub open spec fn plain_cell(content: Seq<char>) -> StyledText {
    StyledText { content, color: default_color() }
}

/// The size cell of an entry: empty for a directory.
pub open spec fn size_cell(entry: EntryTextView) -> StyledText {
    plain_cell(
        if entry.entry_type == EntryType::Directory {
            Seq::empty()
        } else {
            entry.size
        },
    )
}

/// The name cell of an entry: its name with the suffix of its kind, in
/// the directory color for a directory and in the file color otherwise.
pub open spec fn name_cell(conf: ConfView, entry: EntryTextView) -> StyledText {
    StyledText {
        content: entry.name + name_suffix(entry.entry_type),
        color: if entry.entry_type == EntryType::Directory {
            conf.dir_color
        } else {
            conf.file_color
        },
    }
}

/// The cells of an entry's row, one for each shown column.
pub open spec fn row_cells(conf: ConfView, entry: EntryTextView) -> Seq<StyledText> {
    optional(conf.show.permitions, plain_cell(entry.permitions)) + optional(
        conf.show.creation_date,
        plain_cell(entry.created),
    ) + optional(conf.show.modification_date, plain_cell(entry.modified)) + optional(
        conf.show.size,
        size_cell(entry),
    ) + seq![name_cell(conf, entry)]
}

/// The rows of a listing.
pub open spec fn rows_of(conf: ConfView, texts: Seq<EntryTextView>) -> Seq<Seq<StyledText>> {
    texts.map_values(|entry: EntryTextView| row_cells(conf, entry))
}

/// The table of a listing: one column for each shown label, one cell in
/// each column for each entry.
pub open spec fn projection(conf: ConfView, texts: Seq<EntryTextView>) -> Seq<ColumnView> {
    grid(labels(conf.show), rows_of(conf, texts))
}

/// The shown labels differ from each other, and a row has one cell for
/// each of them.
pub proof fn lemma_labels(conf: ConfView, texts: Seq<EntryTextView>)
    ensures
        distinct(labels(conf.show)),
        fits(labels(conf.show), rows_of(conf, texts)),
{
    reveal_strlit("permittions");
    reveal_strlit("created");
    reveal_strlit("modified");
    reveal_strlit("size");
    reveal_strlit("name");
    assert("size"@[0] == 's');
    assert("name"@[0] == 'n');
    assert("permittions"@.len() == 11);
    assert("created"@.len() == 7);
    assert("modified"@.len() == 8);
    assert("size"@.len() == 4);
    assert("name"@.len() == 4);
}

/// Why a listing could not be projected.
#[derive(Clone, Copy, Debug, PartialEq, Eq, Structural)]
pub enum ProjectionError {
    /// A date of the entry at this index cannot be written under the
    /// configured pattern.
    UnwritableDate(usize),
}

/// The place of the first entry that cannot be written out, if any.
pub open spec fn first_unwritable(pattern: Seq<char>, entries: Seq<EntryView>) -> Option<int> {
    if exists|i: int| 0 <= i < entries.len() && written(pattern, #[trigger] entries[i]) is None {
        Some(
            choose|i: int|
                0 <= i < entries.len() && written(pattern, #[trigger] entries[i]) is None && forall|
                    j: int,
                | 0 <= j < i ==> written(pattern, #[trigger] entries[j]) is Some,
        )
    } else {
        None
    }
}

/// The entries written out, where each of them can be.
pub open spec fn all_written(pattern: Seq<char>, entries: Seq<EntryView>) -> Seq<EntryTextView> {
    entries.map_values(|entry: EntryView| written(pattern, entry)->0)
}

/// `entry` with its dates written under `date_format` and its size in
/// decimal units, or `None` where one of its dates cannot be written.
pub fn entry_text(date_format: &str, entry: &Entry) -> (text: Option<EntryText>)
    ensures
        match text {
            Some(done) => written(date_format@, entry@) == Some(done@),
            None => written(date_format@, entry@) is None,
        },
{
    let created = match format_date(
        entry.creation_date.secs,
        entry.creation_date.nanos,
        date_format,
    ) {
        Some(created) => created,
        None => {
            return None;
        },
    };
    let modified = match format_date(
        entry.modification_date.secs,
        entry.modification_date.nanos,
        date_format,
    ) {
        Some(modified) => modified,
        None => {
            return None;
        },
    };
    Some(
        EntryText {
            permitions: entry.permitions.clone(),
            created,
            modified,
            size: format_bytes(entry.size),
            name: entry.name.clone(),
            entry_type: entry.entry_type,
        },
    )
}

/// Inserting the first cells of a row does not depend on the cells
/// that follow them.
proof fn lemma_with_row_prefix(
    columns: Seq<ColumnView>,
    labels: Seq<Seq<char>>,
    row: Seq<StyledText>,
    more_labels: Seq<Seq<char>>,
    more: Seq<StyledText>,
    upto: int,
)
    requires
        labels.len() == row.len(),
        0 <= upto <= labels.len(),
    ensures
        with_row(columns, labels + more_labels, row + more, upto) == with_row(
            columns,
            labels,
            row,
            upto,
        ),
    decreases upto,
{
    if upto > 0 {
        lemma_with_row_prefix(columns, labels, row, more_labels, more, upto - 1);
    }
}

/// Inserts `cell` under `label` where `on` holds, as the next cell of a
/// row whose cells so far stand under `labels`.
fn insert_cell(
    table: &mut Table,
    on: bool,
    label: &str,
    cell: &ColoredStr,
    Ghost(start): Ghost<Seq<ColumnView>>,
    Ghost(labels): Ghost<Seq<Seq<char>>>,
    Ghost(row): Ghost<Seq<StyledText>>,
)
    requires
        old(table).wf(),
        labels.len() == row.len(),
        old(table)@ == with_row(start, labels, row, labels.len() as int),
    ensures
        final(table).wf(),
        final(table)@ == with_row(
            start,
            labels + optional(on, label@),
            row + optional(on, cell@),
            (labels + optional(on, label@)).len() as int,
        ),
{
    if on {
        table.insert(label, cell);
        proof {
            lemma_with_row_prefix(
                start,
                labels,
                row,
                seq![label@],
                seq![cell@],
                labels.len() as int,
            );
        }
    } else {
        proof {
            assert(labels + optional(on, label@) == labels);
            assert(row + optional(on, cell@) == row);
        }
    }
}

/// The table of a listing whose entries are written out already: for
/// each entry one cell in every shown column, the name last.
pub fn table_of_texts(config: &DisplayConf, texts: &Vec<EntryText>) -> (table: Table)
    ensures
        table@ == projection(config@, text_views(texts@)),
        table.wf(),
        rows_complete(table@),
        row_count(table@) == texts.len(),
{
    let mut table = Table::new();
    let ghost conf = config@;
    let ghost shown = labels(conf.show);
    let ghost rows = rows_of(conf, text_views(texts@));
    proof {
        lemma_labels(conf, text_views(texts@));
        assert(rows.take(0).len() == 0);
    }
    let mut at: usize = 0;
    while at < texts.len()
        invariant
            at <= texts.len(),
            conf == config@,
            shown == labels(conf.show),
            rows == rows_of(conf, text_views(texts@)),
            distinct(shown),
            fits(shown, rows),
            table.wf(),
            table@ == grid(shown, rows.take(at as int)),
        decreases texts.len() - at,
    {
        let entry = &texts[at];
        let ghost row = row_cells(conf, entry@);
        let ghost start = table@;
        proof {
            assert(rows[at as int] == row);
            assert(fits(shown, rows.take(at as int)));
            assert(row.len() == shown.len());
        }

        let permitions = ColoredStr::new(entry.permitions.clone());
        let creation_date = ColoredStr::new(entry.created.clone());
        let modification_date = ColoredStr::new(entry.modified.clone());
        let mut size = ColoredStr::new(entry.size.clone());
        let mut name = ColoredStr::new_colored(entry.name.clone(), config.file_color.clone());

        match entry.entry_type {
            EntryType::Directory => {
                name.append("/");
                name.set_color(config.dir_color.clone());
                size.clear();
            },
            EntryType::Symlink => {
                name.append(" -> link");
            },
            EntryType::File => {
                assert(entry@.name + Seq::<char>::empty() == entry@.name);
            },
        }
        assert(name@ == name_cell(conf, entry@));
        assert(size@ == size_cell(entry@));

        let ghost none = Seq::<Seq<char>>::empty();
        let ghost blank = Seq::<StyledText>::empty();
        let ghost l1 = optional(conf.show.permitions, "permittions"@);
        let ghost c1 = optional(conf.show.permitions, permitions@);
        let ghost l2 = l1 + optional(conf.show.creation_date, "created"@);
        let ghost c2 = c1 + optional(conf.show.creation_date, creation_date@);
        let ghost l3 = l2 + optional(conf.show.modification_date, "modified"@);
        let ghost c3 = c2 + optional(conf.show.modification_date, modification_date@);
        let ghost l4 = l3 + optional(conf.show.size, "size"@);
        let ghost c4 = c3 + optional(conf.show.size, size@);
        proof {
            assert(none + l1 == l1);
            assert(blank + c1 == c1);
        }
        insert_cell(
            &mut table,
            config.show.permitions,
            "permittions",
            &permitions,
            Ghost(start),
            Ghost(none),
            Ghost(blank),
        );
        insert_cell(
            &mut table,
            config.show.creation_date,
            "created",
            &creation_date,
            Ghost(start),
            Ghost(l1),
            Ghost(c1),
        );
        insert_cell(
            &mut table,
            config.show.modification_date,
            "modified",
            &modification_date,
            Ghost(start),
            Ghost(l2),
            Ghost(c2),
        );
        insert_cell(&mut table, config.show.size, "size", &size, Ghost(start), Ghost(l3), Ghost(c3));
        insert_cell(&mut table, true, "name", &name, Ghost(start), Ghost(l4), Ghost(c4));
        proof {
            assert(l4 + optional(true, "name"@) == shown);
            assert(c4 + optional(true, name@) == row);
            lemma_grid_row(shown, rows.take(at as int), row);
            assert(rows.take(at + 1) == rows.take(at as int).push(row));
        }
        at += 1;
    }
    proof {
        assert(rows.take(texts.len() as int) == rows);
        lemma_column_lengths(conf, text_views(texts@));
    }
    table
}

/// The table of a listing: for each entry one cell in every shown
/// column, the name last. Fails where a date of an entry cannot be
/// written under the configured pattern, and names the first such
/// entry.
pub fn get_entrys_as_table(config: &DisplayConf, entry_list: &Vec<Entry>) -> (table: Result<
    Table,
    ProjectionError,
>)
    ensures
        match table {
            Ok(built) => first_unwritable(config@.date_format, entry_views(entry_list@)) is None
                && built@ == projection(
                config@,
                all_written(config@.date_format, entry_views(entry_list@)),
            ) && built.wf() && rows_complete(built@) && row_count(built@) == entry_list.len(),
            Err(ProjectionError::UnwritableDate(index)) => first_unwritable(
                config@.date_format,
                entry_views(entry_list@),
            ) == Some(index as int),
        },
{
    let ghost pattern = config@.date_format;
    let ghost entries = entry_views(entry_list@);
    let mut texts: Vec<EntryText> = Vec::new();
    let mut at: usize = 0;
    while at < entry_list.len()
        invariant
            at <= entry_list.len(),
            pattern == config@.date_format,
            entries == entry_views(entry_list@),
            texts.len() == at,
            forall|j: int| 0 <= j < at ==> written(pattern, #[trigger] entries[j]) == Some(texts[j]@),
        decreases entry_list.len() - at,
    {
        match entry_text(config.date_format.as_str(), &entry_list[at]) {
            Some(text) => {
                texts.push(text);
            },
            None => {
                proof {
                    assert(written(pattern, entries[at as int]) is None);
                    let found = first_unwritable(pattern, entries)->0;
                    assert(found == at) by {
                        if found < at {
                            assert(written(pattern, entries[found]) is Some);
                        } else if found > at {
                            assert(written(pattern, entries[at as int]) is Some);
                        }
                    }
                }
                return Err(ProjectionError::UnwritableDate(at));
            },
        }
        at += 1;
    }
    proof {
        assert(text_views(texts@) == all_written(pattern, entries));
    }
    Ok(table_of_texts(config, &texts))
}

/// A date as it is written under `pattern`, and nothing where it
/// cannot be written.
pub open spec fn date_or_blank(stamp: Timestamp, pattern: Seq<char>) -> Seq<char> {
    match date_text(stamp.secs, stamp.nanos, pattern) {
        Some(text) => text,
        None => Seq::empty(),
    }
}

/// An entry written out under the date pattern `pattern`, with a blank
/// in the place of each date that cannot be written.
pub open spec fn written_or_blank(pattern: Seq<char>, entry: EntryView) -> EntryTextView {
    EntryTextView {
        permitions: entry.permitions,
        created: date_or_blank(entry.creation_date, pattern),
        modified: date_or_blank(entry.modification_date, pattern),
        size: size_text(entry.size),
        name: entry.name,
        entry_type: entry.entry_type,
    }
}

/// The entries written out, with blanks for the dates that cannot be.
pub open spec fn all_written_or_blank(pattern: Seq<char>, entries: Seq<EntryView>) -> Seq<
    EntryTextView,
> {
    entries.map_values(|entry: EntryView| written_or_blank(pattern, entry))
}

/// A table, and the error that left dates out of it, if any.
pub struct Projected {
    pub table: Table,
    pub error: Option<ProjectionError>,
}

fn blank_or(date: Option<String>) -> (text: String)
    ensures
        text@ == match date {
            Some(written) => written@,
            None => Seq::<char>::empty(),
        },
{
    match date {
        Some(written) => written,
        None => String::new(),
    }
}

/// The table of a listing, degraded rather than refused where a date
/// cannot be written under the configured pattern: every entry has its
/// row, a date that cannot be written is left blank, and the first
/// entry with such a date is named in the error to report.
pub fn project_or_degrade(config: &DisplayConf, entry_list: &Vec<Entry>) -> (shown: Projected)
    ensures
        shown.table@ == projection(
            config@,
            all_written_or_blank(config@.date_format, entry_views(entry_list@)),
        ),
        shown.table.wf(),
        rows_complete(shown.table@),
        row_count(shown.table@) == entry_list.len(),
        match first_unwritable(config@.date_format, entry_views(entry_list@)) {
            Some(index) => shown.error == Some(ProjectionError::UnwritableDate(index as usize)),
            None => shown.error is None,
        },
{
    let ghost pattern = config@.date_format;
    let ghost entries = entry_views(entry_list@);
    let mut texts: Vec<EntryText> = Vec::new();
    let mut error: Option<ProjectionError> = None;
    let mut at: usize = 0;
    while at < entry_list.len()
        invariant
            at <= entry_list.len(),
            pattern == config@.date_format,
            entries == entry_views(entry_list@),
            texts.len() == at,
            forall|j: int| 0 <= j < at ==> (#[trigger] texts[j])@ == written_or_blank(pattern, entries[j]),
            match error {
                Some(ProjectionError::UnwritableDate(k)) => k < at && written(
                    pattern,
                    entries[k as int],
                ) is None && forall|j: int|
                    0 <= j < k ==> written(pattern, #[trigger] entries[j]) is Some,
                None => forall|j: int| 0 <= j < at ==> written(pattern, #[trigger] entries[j]) is Some,
            },
        decreases entry_list.len() - at,
    {
        let entry = &entry_list[at];
        let pattern_text = config.date_format.as_str();
        let created = format_date(entry.creation_date.secs, entry.creation_date.nanos, pattern_text);
        let modified = format_date(
            entry.modification_date.secs,
            entry.modification_date.nanos,
            pattern_text,
        );
        if error.is_none() && (created.is_none() || modified.is_none()) {
            error = Some(ProjectionError::UnwritableDate(at));
        }
        texts.push(
            EntryText {
                permitions: entry.permitions.clone(),
                created: blank_or(created),
                modified: blank_or(modified),
                size: format_bytes(entry.size),
                name: entry.name.clone(),
                entry_type: entry.entry_type,
            },
        );
        at += 1;
    }
    proof {
        assert(text_views(texts@) == all_written_or_blank(pattern, entries));
        match error {
            Some(ProjectionError::UnwritableDate(k)) => {
                let found = first_unwritable(pattern, entries)->0;
                assert(found == k) by {
                    if found < k {
                        assert(written(pattern, entries[found]) is Some);
                    } else if found > k {
                        assert(written(pattern, entries[k as int]) is Some);
                    }
                }
            },
            None => {},
        }
    }
    Projected { table: table_of_texts(config, &texts), error }
}

/// The column at place `c` of a projection stands under the label at
/// place `c`, and its cell for entry `i` is the cell at place `c` of
/// that entry's row.
pub proof fn lemma_projection_cell(conf: ConfView, texts: Seq<EntryTextView>, c: int, i: int)
    requires
        0 <= c < labels(conf.show).len(),
        0 <= i < texts.len(),
    ensures
        projection(conf, texts).len() == labels(conf.show).len(),
        projection(conf, texts)[c].name == labels(conf.show)[c],
        projection(conf, texts)[c].cells.len() == texts.len(),
        projection(conf, texts)[c].cells[i] == row_cells(conf, texts[i])[c],
{
}

/// Every column of a projection has exactly one cell for each entry of
/// the listing; with at least one entry, the columns are the shown
/// labels, and the last of them is the name.
pub proof fn lemma_column_lengths(conf: ConfView, texts: Seq<EntryTextView>)
    ensures
        forall|c: int|
            0 <= c < projection(conf, texts).len() ==> (#[trigger] projection(
                conf,
                texts,
            )[c]).cells.len() == texts.len(),
        texts.len() > 0 ==> projection(conf, texts).len() == labels(conf.show).len(),
        texts.len() > 0 ==> projection(conf, texts).last().name == "name"@,
        texts.len() == 0 ==> projection(conf, texts).len() == 0,
        row_count(projection(conf, texts)) == texts.len(),
        rows_complete(projection(conf, texts)),
        well_formed(projection(conf, texts)),
{
    lemma_labels(conf, texts);
    lemma_grid_well_formed(labels(conf.show), rows_of(conf, texts));
}

/// The place of the size column among the shown columns.
pub open spec fn size_place(show: DisplayColumns) -> int {
    (optional(show.permitions, "permittions"@) + optional(show.creation_date, "created"@)
        + optional(show.modification_date, "modified"@)).len() as int
}

/// A directory has an empty size cell, whatever its size was written
/// as, and its name cell is its name followed by `/`.
pub proof fn lemma_directory_cells(conf: ConfView, texts: Seq<EntryTextView>, i: int)
    requires
        0 <= i < texts.len(),
        texts[i].entry_type == EntryType::Directory,
    ensures
        projection(conf, texts).last().name == "name"@,
        projection(conf, texts).last().cells[i].content == texts[i].name + "/"@,
        projection(conf, texts).last().cells[i].content.last() == '/',
        conf.show.size ==> has_column(projection(conf, texts), "size"@) && projection(
            conf,
            texts,
        )[column_index(projection(conf, texts), "size"@)].cells[i].content == Seq::<char>::empty(),
{
    let shown = labels(conf.show);
    let table = projection(conf, texts);
    reveal_strlit("/");
    lemma_column_lengths(conf, texts);
    lemma_projection_cell(conf, texts, shown.len() - 1, i);
    if conf.show.size {
        let c = size_place(conf.show);
        lemma_projection_cell(conf, texts, c, i);
        assert(table[c].name == "size"@);
        lemma_column_index(table, c);
    }
}

/// The name cell of a symbolic link is its name followed by the link
/// marker.
pub proof fn lemma_symlink_cells(conf: ConfView, texts: Seq<EntryTextView>, i: int)
    requires
        0 <= i < texts.len(),
        texts[i].entry_type == EntryType::Symlink,
    ensures
        projection(conf, texts).last().name == "name"@,
        projection(conf, texts).last().cells[i].content == texts[i].name + " -> link"@,
{
    lemma_column_lengths(conf, texts);
    lemma_projection_cell(conf, texts, labels(conf.show).len() - 1, i);
}

/// Row `i` of a projection, read back as a mapping, gives under `name`
/// the name of entry `i` with the suffix of its kind, and under no
/// other column a field called `name`.
pub proof fn lemma_row_name(conf: ConfView, texts: Seq<EntryTextView>, i: int)
    requires
        0 <= i < texts.len(),
    ensures
        has_row(projection(conf, texts), i),
        row_mapping(projection(conf, texts), i).len() == labels(conf.show).len(),
        row_mapping(projection(conf, texts), i).last() == (
            "name"@,
            texts[i].name + name_suffix(texts[i].entry_type),
        ),
        forall|k: int|
            0 <= k < labels(conf.show).len() - 1 ==> (#[trigger] row_mapping(
                projection(conf, texts),
                i,
            )[k]).0 != "name"@,
{
    let shown = labels(conf.show);
    let table = projection(conf, texts);
    lemma_labels(conf, texts);
    lemma_column_lengths(conf, texts);
    lemma_projection_cell(conf, texts, shown.len() - 1, i);
    assert forall|k: int| 0 <= k < shown.len() - 1 implies (#[trigger] row_mapping(table, i)[k]).0
        != "name"@ by {
        assert(table[k].name == shown[k]);
        assert(shown[k] != shown[shown.len() - 1]);
    }
}

} // verus!
