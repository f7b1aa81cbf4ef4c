//! The insertion-ordered maps of the `indexmap` crate that the table is
//! built on: the map of a table's columns, and the map that one row is
//! handed out as. Verus cannot look inside an `IndexMap`, so what such a
//! map holds is given a name, and each method the table calls is wrapped
//! in a function whose contract restates the method's documentation over
//! that name. These contracts are believed, not proved.

use crate::color_str::ColoredStr;
use indexmap::IndexMap;
use vstd::prelude::*;

verus! {

#[verifier::external_type_specification]
#[verifier::external_body]
#[verifier::reject_recursive_types(K)]
#[verifier::reject_recursive_types(V)]
#[verifier::reject_recursive_types(S)]
pub struct ExIndexMap<K, V, S>(IndexMap<K, V, S>);

/// One column of a table: its cells from the first row down, and the
/// width recorded for it.
pub struct Column {
    pub cells: Vec<ColoredStr>,
    pub width: usize,
}

/// The entries of a map of columns, in the order of their first insertion:
/// each a column's name and the column.
pub uninterp spec fn column_entries(map: IndexMap<String, Column>) -> Seq<(Seq<char>, Column)>;

/// The entries of a row, in the order of their first insertion: each a
/// column's name and the text of the row's cell in that column.
pub uninterp spec fn row_entries(map: IndexMap<String, String>) -> Seq<(Seq<char>, Seq<char>)>;

/// `IndexMap::new`: a map without entries.
#[verifier::external_body]
pub(crate) fn columns_new() -> (map: IndexMap<String, Column>)
    ensures
        column_entries(map) == Seq::<(Seq<char>, Column)>::empty(),
{
    IndexMap::new()
}

/// `IndexMap::len`: the number of entries.
#[verifier::external_body]
pub(crate) fn columns_len(map: &IndexMap<String, Column>) -> (len: usize)
    ensures
        len == column_entries(*map).len(),
{
    map.len()
}

/// `IndexMap::contains_key`: whether some entry has the name `name`.
#[verifier::external_body]
pub(crate) fn columns_contains_key(map: &IndexMap<String, Column>, name: &str) -> (found: bool)
    ensures
        found == (exists|i: int|
            0 <= i < column_entries(*map).len() && (#[trigger] column_entries(*map)[i]).0 == name@),
{
    map.contains_key(name)
}

/// `IndexMap::insert`: where an entry has the name `name`, it keeps its
/// place, its column is replaced by `column`, and the column it held
/// comes back; where none has, the new entry goes last and `None` comes
/// back. No other entry changes.
#[verifier::external_body]
pub(crate) fn columns_insert(map: &mut IndexMap<String, Column>, name: String, column: Column) -> (
    replaced: Option<Column>
)
    ensures
        match replaced {
            Some(former) => exists|i: int|
                0 <= i < column_entries(*old(map)).len()
                && #[trigger] column_entries(*old(map))[i] == (name@, former)
                && column_entries(*final(map)) == column_entries(*old(map)).update(i, (name@, column)),
            None => column_entries(*final(map)) == column_entries(*old(map)).push((name@, column))
                && forall|i: int|
                    0 <= i < column_entries(*old(map)).len()
                    ==> (#[trigger] column_entries(*old(map))[i]).0 != name@,
        },
{
    map.insert(name, column)
}

/// `IndexMap::get_mut`: the column stored under `name`, open to change,
/// or `None` where no entry has that name. What the caller leaves in the
/// column is what the map holds afterwards, at the same place and under
/// the same name; no other entry changes.
#[verifier::external_body]
pub(crate) fn columns_get_mut<'a>(map: &'a mut IndexMap<String, Column>, name: &str) -> (
    column: Option<&'a mut Column>
)
    ensures
        match column {
            Some(slot) => exists|i: int|
                0 <= i < column_entries(*old(map)).len()
                && #[trigger] column_entries(*old(map))[i] == (name@, *slot)
                && column_entries(*final(map)) == column_entries(*old(map)).update(i, (name@, *final(slot))),
            None => column_entries(*final(map)) == column_entries(*old(map))
                && forall|i: int|
                    0 <= i < column_entries(*old(map)).len()
                    ==> (#[trigger] column_entries(*old(map))[i]).0 != name@,
        },
{
    map.get_mut(name)
}

/// `IndexMap::get_index`: the name and the column of the entry at
/// `index`, counted from zero in insertion order, or `None` at and
/// beyond the number of entries.
#[verifier::external_body]
pub(crate) fn columns_get_index(map: &IndexMap<String, Column>, index: usize) -> (
    entry: Option<(&String, &Column)>
)
    ensures
        match entry {
            Some((name, column)) => index < column_entries(*map).len()
                && column_entries(*map)[index as int] == (name@, *column),
            None => index >= column_entries(*map).len(),
        },
{
    map.get_index(index)
}

/// `IndexMap::new`: a row without entries.
#[verifier::external_body]
pub(crate) fn row_new() -> (map: IndexMap<String, String>)
    ensures
        row_entries(map) == Seq::<(Seq<char>, Seq<char>)>::empty(),
{
    IndexMap::new()
}

/// `IndexMap::insert`: where an entry has the name `name`, it keeps its
/// place and its text is replaced by `text`; where none has, the new
/// entry goes last. No other entry changes.
#[verifier::external_body]
pub(crate) fn row_insert(map: &mut IndexMap<String, String>, name: String, text: String) -> (
    replaced: Option<String>
)
    ensures
        match replaced {
            Some(former) => exists|i: int|
                0 <= i < row_entries(*old(map)).len()
                && #[trigger] row_entries(*old(map))[i] == (name@, former@)
                && row_entries(*final(map)) == row_entries(*old(map)).update(i, (name@, text@)),
            None => row_entries(*final(map)) == row_entries(*old(map)).push((name@, text@))
                && forall|i: int|
                    0 <= i < row_entries(*old(map)).len()
                    ==> (#[trigger] row_entries(*old(map))[i]).0 != name@,
        },
{
    map.insert(name, text)
}

/// `IndexMap::get`: the text stored under `name`, or `None` where no
/// entry has that name.
#[verifier::external_body]
pub(crate) fn row_get<'a>(map: &'a IndexMap<String, String>, name: &str) -> (text: Option<&'a String>)
    ensures
        match text {
            Some(found) => exists|i: int|
                0 <= i < row_entries(*map).len() && #[trigger] row_entries(*map)[i] == (name@, found@),
            None => forall|i: int|
                0 <= i < row_entries(*map).len() ==> (#[trigger] row_entries(*map)[i]).0 != name@,
        },
{
    map.get(name)
}

} // verus!
