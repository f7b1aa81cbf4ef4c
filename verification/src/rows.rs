//! Tables filled row by row: what a table holds after whole rows were
//! inserted under a fixed list of labels.

use crate::color_str::StyledText;
use crate::table::{
    column_index, column_width, has_column, inserted, text_len, well_formed, wider, ColumnView,
};
use vstd::prelude::*;

verus! {

/// Whether no label occurs twice.
pub open spec fn distinct(labels: Seq<Seq<char>>) -> bool {
    forall|i: int, j: int| 0 <= i < j < labels.len() ==> labels[i] != labels[j]
}

/// Whether every row has one cell for each label.
pub open spec fn fits(labels: Seq<Seq<char>>, rows: Seq<Seq<StyledText>>) -> bool {
    forall|i: int| 0 <= i < rows.len() ==> (#[trigger] rows[i]).len() == labels.len()
}

/// The cells of column `c`, from the first row down.
pub open spec fn cells_of(rows: Seq<Seq<StyledText>>, c: int) -> Seq<StyledText> {
    Seq::new(rows.len(), |i: int| rows[i][c])
}

/// The column that holds `cells` under `label`.
pub open spec fn column_of(label: Seq<char>, cells: Seq<StyledText>) -> ColumnView {
    ColumnView { name: label, cells, width: column_width(label, cells) }
}

/// The table that holds `rows` under `labels`: one column for each
/// label, in the order of the labels, each with one cell for each row.
/// Without rows there are no columns, as columns come with their first
/// cell.
pub open spec fn grid(labels: Seq<Seq<char>>, rows: Seq<Seq<StyledText>>) -> Seq<ColumnView> {
    if rows.len() == 0 {
        Seq::empty()
    } else {
        Seq::new(labels.len(), |c: int| column_of(labels[c], cells_of(rows, c)))
    }
}

/// The columns after the first `upto` cells of a row were inserted, each
/// under its label.
pub open spec fn with_row(
    columns: Seq<ColumnView>,
    labels: Seq<Seq<char>>,
    row: Seq<StyledText>,
    upto: int,
) -> Seq<ColumnView>
    decreases upto,
{
    if upto <= 0 {
        columns
    } else {
        inserted(with_row(columns, labels, row, upto - 1), labels[upto - 1], row[upto - 1])
    }
}

/// The grid of `rows` with the first `upto` cells of one more row.
spec fn partial(
    labels: Seq<Seq<char>>,
    rows: Seq<Seq<StyledText>>,
    row: Seq<StyledText>,
    upto: int,
) -> Seq<ColumnView> {
    if rows.len() == 0 {
        Seq::new(upto as nat, |c: int| column_of(labels[c], seq![row[c]]))
    } else {
        Seq::new(
            labels.len(),
            |c: int|
                if c < upto {
                    column_of(labels[c], cells_of(rows, c).push(row[c]))
                } else {
                    column_of(labels[c], cells_of(rows, c))
                },
        )
    }
}

proof fn lemma_width_push(label: Seq<char>, cells: Seq<StyledText>, cell: StyledText)
    ensures
        column_width(label, cells.push(cell)) == wider(
            column_width(label, cells),
            text_len(cell.content),
        ),
{
    assert(cells.push(cell).drop_last() == cells);
}

proof fn lemma_partial(
    labels: Seq<Seq<char>>,
    rows: Seq<Seq<StyledText>>,
    row: Seq<StyledText>,
    upto: int,
)
    requires
        distinct(labels),
        fits(labels, rows),
        row.len() == labels.len(),
        0 <= upto <= labels.len(),
    ensures
        with_row(grid(labels, rows), labels, row, upto) == partial(labels, rows, row, upto),
        well_formed(partial(labels, rows, row, upto)),
    decreases upto,
{
    let now = partial(labels, rows, row, upto);
    if upto == 0 {
        assert(now == grid(labels, rows));
    } else {
        lemma_partial(labels, rows, row, upto - 1);
        let c = upto - 1;
        let before = partial(labels, rows, row, c);
        if rows.len() == 0 {
            assert(!has_column(before, labels[c]));
            lemma_width_push(labels[c], Seq::empty(), row[c]);
            assert(Seq::<StyledText>::empty().push(row[c]) == seq![row[c]]);
            assert(inserted(before, labels[c], row[c]) == now);
        } else {
            assert(before[c].name == labels[c]);
            let at = column_index(before, labels[c]);
            assert(at == c) by {
                if at < c {
                    assert(labels[at] != labels[c]);
                } else if at > c {
                    assert(labels[c] != labels[at]);
                }
            }
            lemma_width_push(labels[c], cells_of(rows, c), row[c]);
            assert(inserted(before, labels[c], row[c]) == now);
        }
    }
    assert forall|i: int, j: int| 0 <= i < j < now.len() implies (#[trigger] now[i]).name != (
    #[trigger] now[j]).name by {
        assert(now[i].name == labels[i]);
        assert(now[j].name == labels[j]);
    }
}

/// Inserting the cells of one more row, each under its label, turns the
/// grid of the rows so far into the grid of the rows with that row.
pub proof fn lemma_grid_row(labels: Seq<Seq<char>>, rows: Seq<Seq<StyledText>>, row: Seq<StyledText>)
    requires
        distinct(labels),
        fits(labels, rows),
        row.len() == labels.len(),
    ensures
        with_row(grid(labels, rows), labels, row, labels.len() as int) == grid(
            labels,
            rows.push(row),
        ),
        well_formed(grid(labels, rows.push(row))),
{
    lemma_partial(labels, rows, row, labels.len() as int);
    let whole = partial(labels, rows, row, labels.len() as int);
    let next = grid(labels, rows.push(row));
    assert forall|c: int| 0 <= c < labels.len() implies #[trigger] whole[c] == next[c] by {
        if rows.len() == 0 {
            assert(cells_of(rows.push(row), c) == seq![row[c]]);
        } else {
            assert(cells_of(rows.push(row), c) == cells_of(rows, c).push(row[c]));
        }
    }
    assert(whole == next);
}

/// The grid of any rows is well formed.
pub proof fn lemma_grid_well_formed(labels: Seq<Seq<char>>, rows: Seq<Seq<StyledText>>)
    requires
        distinct(labels),
    ensures
        well_formed(grid(labels, rows)),
{
    let table = grid(labels, rows);
    assert forall|i: int, j: int| 0 <= i < j < table.len() implies (#[trigger] table[i]).name != (
    #[trigger] table[j]).name by {
        assert(table[i].name == labels[i]);
        assert(table[j].name == labels[j]);
    }
}

} // verus!
