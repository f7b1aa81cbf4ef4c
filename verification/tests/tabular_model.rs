use cli_collect::color_str::ColoredStr;
use cli_collect::present::{
    present_interactive, present_static, selection_of, separator, table_text, Presentation,
    Selection,
};
use cli_collect::table::{pad_to, Table, TableError};

fn cell(content: &str, color: &str) -> ColoredStr {
    ColoredStr::new_colored(String::from(content), String::from(color))
}

#[test]
fn a_new_table_has_no_columns_and_no_rows() {
    let table = Table::new();
    assert_eq!(table.rows(), 0);
    assert_eq!(table.get_headers(), "\n");
    assert!(matches!(table.get_values(), Err(TableError::NoValues)));
    assert!(table.invalid_colors().is_empty());
}

#[test]
fn columns_stand_in_the_order_of_their_first_use() {
    let mut table = Table::new();
    table.insert("zeta", &cell("1", "-"));
    table.insert("alpha", &cell("2", "-"));
    table.insert("zeta", &cell("3", "-"));
    table.insert("alpha", &cell("4", "-"));
    let row = table.get(0);
    let names: Vec<&String> = row.keys().collect();
    assert_eq!(names, ["zeta", "alpha"]);
    assert_eq!(table.get_headers(), "zeta  alpha  \n");
}

#[test]
fn the_header_pads_each_label_to_the_width_and_the_gutter() {
    let mut table = Table::new();
    table.insert("size", &cell("10 B", "-"));
    table.insert("name", &cell("a-long-file-name.txt", "-"));
    // "size": width 4, laid out in 6 characters.
    // "name": width 20, laid out in 22 characters.
    assert_eq!(table.get_headers(), "size  name                  \n");
    assert_eq!(table.get_headers().len(), 6 + 22 + 1);
}

#[test]
fn the_width_is_that_of_the_longest_text_the_label_included() {
    let mut table = Table::new();
    table.insert("permittions", &cell("rw", "-"));
    assert_eq!(table.get_headers(), "permittions  \n");
    table.insert("permittions", &cell("a text longer than the label", "-"));
    assert_eq!(table.get_headers(), format!("{:<30}\n", "permittions"));
    table.insert("permittions", &cell("short", "-"));
    assert_eq!(table.get_headers(), format!("{:<30}\n", "permittions"));
}

#[test]
fn the_width_counts_bytes_and_the_padding_counts_characters() {
    let mut table = Table::new();
    table.insert("n", &cell("\u{e9}\u{e9}\u{e9}", "-"));
    // Three characters of two bytes each: width 6, laid out in 8.
    assert_eq!(table.get_headers(), "n       \n");
    let rows = table.get_values().unwrap();
    assert_eq!(rows, ["\u{e9}\u{e9}\u{e9}     "]);
}

#[test]
fn pad_to_fills_up_with_spaces() {
    assert_eq!(pad_to("ab", 5), "ab   ");
    assert_eq!(pad_to("ab", 2), "ab");
    assert_eq!(pad_to("abc", 1), "abc");
    assert_eq!(pad_to("", 0), "");
    assert_eq!(pad_to("", 3), "   ");
    assert_eq!(pad_to("\u{e9}", 3), "\u{e9}  ");
    assert_eq!(pad_to("ab", 5), format!("{:<5}", "ab"));
}

#[test]
fn row_lines_hold_every_column_in_its_layout_width() {
    let mut table = Table::new();
    table.insert("size", &cell("10 B", "no color"));
    table.insert("name", &cell("c.txt", "no color"));
    table.insert("size", &cell("", "no color"));
    table.insert("name", &cell("b/", "no color"));
    let rows = table.get_values().unwrap();
    assert_eq!(rows, ["10 B  c.txt  ", "      b/     "]);
    assert_eq!(table.rows(), 2);
}

#[test]
fn get_gives_the_raw_content_of_a_row() {
    let mut table = Table::new();
    table.insert("size", &cell("10 B", "red"));
    table.insert("name", &cell("c.txt", "blue"));
    table.insert("size", &cell("", "red"));
    table.insert("name", &cell("b/", "blue"));
    let first = table.get(0);
    assert_eq!(first.len(), 2);
    assert_eq!(first.get("size").unwrap(), "10 B");
    assert_eq!(first.get("name").unwrap(), "c.txt");
    let second = table.get(1);
    assert_eq!(second.get("size").unwrap(), "");
    assert_eq!(second.get("name").unwrap(), "b/");
    assert_eq!(second.get_index(0).unwrap().0, "size");
    assert_eq!(second.get_index(1).unwrap().0, "name");
}

#[test]
fn has_row_tells_whether_every_column_reaches_the_row() {
    let mut table = Table::new();
    assert!(table.has_row(0));
    table.insert("a", &cell("1", "-"));
    table.insert("a", &cell("2", "-"));
    table.insert("b", &cell("3", "-"));
    assert!(table.has_row(0));
    assert!(!table.has_row(1));
    assert!(!table.has_row(2));
}

#[test]
fn unknown_colors_are_named_once_for_each_cell_row_by_row() {
    let mut table = Table::new();
    table.insert("a", &cell("1", "red"));
    table.insert("b", &cell("2", "pink"));
    table.insert("a", &cell("3", "teal"));
    table.insert("b", &cell("4", "pink"));
    assert_eq!(table.invalid_colors(), ["pink", "teal", "pink"]);
}

#[test]
fn known_colors_are_not_reported() {
    let mut table = Table::new();
    table.insert("a", &cell("1", "red"));
    table.insert("b", &cell("2", "bright_white"));
    assert!(table.invalid_colors().is_empty());
}

#[test]
fn an_unknown_color_leaves_its_cell_unstyled_and_the_others_styled() {
    let mut table = Table::new();
    table.insert("a", &cell("one", "red"));
    table.insert("b", &cell("two", "pink"));
    table.insert("c", &cell("six", "green"));
    colored::control::set_override(true);
    let rows = table.get_values().unwrap();
    colored::control::unset_override();
    assert_eq!(rows.len(), 1);
    assert_eq!(rows[0], "\u{1b}[31mone  \u{1b}[0mtwo  \u{1b}[32msix  \u{1b}[0m");
    assert_eq!(table.invalid_colors(), ["pink"]);
}

#[test]
fn separator_is_as_long_as_the_line_in_bytes() {
    assert_eq!(separator(""), "");
    assert_eq!(separator("abc\n"), "----");
    assert_eq!(separator("\u{e9}"), "--");
}

#[test]
fn table_text_puts_a_line_feed_after_each_row() {
    let rows = vec![String::from("a"), String::from(""), String::from("c")];
    assert_eq!(table_text("head\n", &rows), "head\na\n\nc\n");
    assert_eq!(table_text("head\n", &Vec::new()), "head\n");
}

#[test]
fn an_empty_table_is_presented_as_nothing_and_counts_as_cancelled() {
    let table = Table::new();
    let shown = present_interactive(&table);
    match &shown {
        Presentation::Nothing { above } => assert_eq!(above, "\n-\n"),
        Presentation::Menu { .. } => panic!("a table without columns has no menu"),
    }
    assert_eq!(selection_of(&shown, Some(0)), Selection::Cancelled);
    assert_eq!(selection_of(&shown, None), Selection::Cancelled);
    assert_eq!(present_static(&table), "\n");
}

#[test]
fn a_table_is_presented_as_a_menu_of_its_rows() {
    let mut table = Table::new();
    table.insert("name", &cell("b/", "?"));
    table.insert("name", &cell("c.txt", "?"));
    let shown = present_interactive(&table);
    match &shown {
        Presentation::Menu { above, options } => {
            assert_eq!(above, "name   \n--------\n");
            assert_eq!(options, &["b/     ", "c.txt  "]);
        },
        Presentation::Nothing { .. } => panic!("a table with rows has a menu"),
    }
    assert_eq!(selection_of(&shown, Some(0)), Selection::Selected(0));
    assert_eq!(selection_of(&shown, Some(1)), Selection::Selected(1));
    assert_eq!(selection_of(&shown, Some(2)), Selection::Cancelled);
    assert_eq!(selection_of(&shown, None), Selection::Cancelled);
    assert_eq!(present_static(&table), "name   \nb/     \nc.txt  \n");
}

#[test]
fn one_column_holding_c_txt_has_a_header_of_seven_characters() {
    let mut table = Table::new();
    table.insert("name", &ColoredStr::new(String::from("c.txt")));
    assert_eq!(table.get_headers(), "name   \n");
}

#[test]
fn rows_are_as_long_as_the_header_whatever_the_colors() {
    let mut table = Table::new();
    table.insert("size", &cell("10 B", "red"));
    table.insert("name", &cell("c.txt", "white"));
    table.insert("size", &cell("", "pink"));
    table.insert("name", &cell("a-longer-name", "bright_blue"));
    let header = table.get_headers();
    colored::control::set_override(false);
    for row in table.get_values().unwrap() {
        assert_eq!(row.chars().count() + 1, header.chars().count());
    }
    colored::control::set_override(true);
    let rows = table.get_values().unwrap();
    colored::control::unset_override();
    assert_eq!(rows[0], "\u{1b}[31m10 B  \u{1b}[0m\u{1b}[37mc.txt          \u{1b}[0m");
    assert_eq!(rows[1], "      \u{1b}[94ma-longer-name  \u{1b}[0m");
}

#[test]
fn a_column_too_wide_to_lay_out_has_no_row_lines() {
    let mut table = Table::new();
    table.insert("name", &cell(&"x".repeat(65_533), "red"));
    assert!(table.fits_layout());
    let rows = table.get_values().unwrap();
    assert_eq!(rows.len(), 1);
    table.insert("name", &cell(&"x".repeat(65_534), "red"));
    assert!(!table.fits_layout());
    assert_eq!(table.get_values().err(), Some(TableError::TooWide));
    let shown = present_interactive(&table);
    assert!(matches!(shown, Presentation::Nothing { .. }));
    assert_eq!(selection_of(&shown, Some(0)), Selection::Cancelled);
    assert_eq!(present_static(&table), table.get_headers());
}
