use cli_collect::listing::{
    get_entry_type, list_dir, list_or_degrade, permitions_to_string, Child, Entry, EntryType,
    Failure, FileFacts, Scan, Timestamp,
};
use cli_collect::projection::{
    entry_text, get_entrys_as_table, project_or_degrade, table_of_texts, DisplayColumns,
    DisplayConf, EntryText, ProjectionError,
};

fn facts(is_dir: bool, is_symlink: bool, len: u64) -> FileFacts {
    FileFacts {
        readonly: false,
        created: Timestamp { secs: 0, nanos: 0 },
        modified: Timestamp { secs: 1491137432, nanos: 0 },
        len,
        is_dir,
        is_symlink,
    }
}

fn child(name: &str, is_dir: bool, is_symlink: bool, len: u64) -> Result<Child, Failure> {
    Ok(Child { name: String::from(name), facts: facts(is_dir, is_symlink, len) })
}

fn failure(message: &str) -> Failure {
    Failure { kind: String::from("permission denied"), message: String::from(message) }
}

fn directory_a() -> Scan {
    Scan {
        parent: Some(Ok(FileFacts { readonly: true, ..facts(true, false, 4096) })),
        children: Ok(vec![child("b", true, false, 4096), child("c.txt", false, false, 10)]),
    }
}

fn all_columns() -> DisplayConf {
    DisplayConf::default()
}

fn only_names() -> DisplayConf {
    DisplayConf {
        show: DisplayColumns {
            permitions: false,
            creation_date: false,
            modification_date: false,
            size: false,
        },
        ..DisplayConf::default()
    }
}

fn text(name: &str, size: &str, entry_type: EntryType) -> EntryText {
    EntryText {
        permitions: String::from("rw"),
        created: String::from("yesterday"),
        modified: String::from("today"),
        size: String::from(size),
        name: String::from(name),
        entry_type,
    }
}

#[test]
fn permissions_are_summed_up_in_two_states() {
    assert_eq!(permitions_to_string(true), "r-");
    assert_eq!(permitions_to_string(false), "rw");
}

#[test]
fn a_directory_comes_before_a_symlink_and_a_symlink_before_a_file() {
    assert_eq!(get_entry_type(true, false), EntryType::Directory);
    assert_eq!(get_entry_type(true, true), EntryType::Directory);
    assert_eq!(get_entry_type(false, true), EntryType::Symlink);
    assert_eq!(get_entry_type(false, false), EntryType::File);
}

#[test]
fn listing_starts_with_the_way_up_and_keeps_the_reading_order() {
    let entries = list_dir(&directory_a()).ok().unwrap();
    assert_eq!(entries.len(), 3);
    assert_eq!(entries[0].name, "..");
    assert_eq!(entries[0].entry_type, EntryType::Directory);
    assert_eq!(entries[0].size, 0);
    assert_eq!(entries[0].permitions, "r-");
    assert_eq!(entries[0].modification_date, Timestamp { secs: 1491137432, nanos: 0 });
    assert_eq!(entries[1].name, "b");
    assert_eq!(entries[1].entry_type, EntryType::Directory);
    assert_eq!(entries[1].size, 4096);
    assert_eq!(entries[1].permitions, "rw");
    assert_eq!(entries[2].name, "c.txt");
    assert_eq!(entries[2].entry_type, EntryType::File);
    assert_eq!(entries[2].size, 10);
}

#[test]
fn a_directory_without_a_parent_has_no_way_up() {
    let scan = Scan { parent: None, children: Ok(vec![child("z", false, false, 1), child("a", false, true, 2)]) };
    let entries = list_dir(&scan).ok().unwrap();
    assert_eq!(entries.len(), 2);
    assert_eq!(entries[0].name, "z");
    assert_eq!(entries[1].name, "a");
    assert_eq!(entries[1].entry_type, EntryType::Symlink);
}

#[test]
fn listing_fails_with_the_first_failure() {
    let parent_failed = Scan {
        parent: Some(Err(failure("parent"))),
        children: Err(failure("directory")),
    };
    assert_eq!(list_dir(&parent_failed).err().unwrap().message, "parent");
    let directory_failed = Scan {
        parent: Some(Ok(facts(true, false, 0))),
        children: Err(failure("directory")),
    };
    let failed = list_dir(&directory_failed).err().unwrap();
    assert_eq!(failed.message, "directory");
    assert_eq!(failed.kind, "permission denied");
    let child_failed = Scan {
        parent: None,
        children: Ok(vec![
            child("a", false, false, 1),
            Err(failure("second")),
            child("c", false, false, 1),
            Err(failure("fourth")),
        ]),
    };
    assert_eq!(list_dir(&child_failed).err().unwrap().message, "second");
}

#[test]
fn an_unreadable_directory_degrades_to_the_way_up_alone() {
    let scan = Scan { parent: Some(Ok(facts(true, false, 0))), children: Err(failure("denied")) };
    let shown = list_or_degrade(&scan);
    assert_eq!(shown.failure.unwrap().message, "denied");
    assert_eq!(shown.entries.len(), 1);
    assert_eq!(shown.entries[0].name, "..");
    let table = get_entrys_as_table(&all_columns(), &shown.entries).ok().unwrap();
    assert_eq!(table.rows(), 1);
    assert_eq!(table.get(0).get("name").unwrap(), "../");
}

#[test]
fn an_unreadable_directory_without_a_parent_degrades_to_no_rows() {
    let scan = Scan { parent: None, children: Err(failure("denied")) };
    let shown = list_or_degrade(&scan);
    assert_eq!(shown.failure.unwrap().message, "denied");
    assert!(shown.entries.is_empty());
    let table = get_entrys_as_table(&all_columns(), &shown.entries).ok().unwrap();
    assert_eq!(table.rows(), 0);
    let unreadable_child = Scan {
        parent: Some(Err(failure("parent"))),
        children: Ok(vec![child("a", false, false, 1)]),
    };
    let shown = list_or_degrade(&unreadable_child);
    assert_eq!(shown.failure.unwrap().message, "parent");
    assert!(shown.entries.is_empty());
}

#[test]
fn a_child_that_cannot_be_read_degrades_the_listing_too() {
    let scan = Scan {
        parent: Some(Ok(facts(true, false, 0))),
        children: Ok(vec![child("a", false, false, 1), Err(failure("vanished"))]),
    };
    let shown = list_or_degrade(&scan);
    assert_eq!(shown.failure.unwrap().message, "vanished");
    assert_eq!(shown.entries.len(), 1);
    assert_eq!(shown.entries[0].name, "..");
}

#[test]
fn a_readable_directory_is_listed_in_full() {
    let shown = list_or_degrade(&directory_a());
    assert!(shown.failure.is_none());
    assert_eq!(shown.entries.len(), 3);
}

#[test]
fn listing_a_with_all_columns_gives_three_rows() {
    let entries = list_dir(&directory_a()).ok().unwrap();
    let table = get_entrys_as_table(&all_columns(), &entries).ok().unwrap();
    assert_eq!(table.rows(), 3);
    let up = table.get(0);
    let b = table.get(1);
    let c = table.get(2);
    let columns: Vec<&String> = up.keys().collect();
    assert_eq!(columns, ["permittions", "created", "modified", "size", "name"]);
    assert_eq!(up.get("name").unwrap(), "../");
    assert_eq!(up.get("size").unwrap(), "");
    assert_eq!(up.get("permittions").unwrap(), "r-");
    assert_eq!(b.get("name").unwrap(), "b/");
    assert_eq!(b.get("size").unwrap(), "");
    assert_eq!(c.get("name").unwrap(), "c.txt");
    assert_eq!(c.get("size").unwrap(), "10 B");
    assert_eq!(c.get("permittions").unwrap(), "rw");
    assert_eq!(c.get("created").unwrap(), "01/01/1970 00:00");
    assert_eq!(c.get("modified").unwrap(), "02/04/2017 12:50");
}

#[test]
fn sizes_are_written_in_decimal_units() {
    let date = Timestamp { secs: 0, nanos: 0 };
    let entry = |size: u64| Entry {
        permitions: String::from("rw"),
        creation_date: date,
        modification_date: date,
        size,
        name: String::from("f"),
        entry_type: EntryType::File,
    };
    let size_of = |size: u64| entry_text("%Y", &entry(size)).unwrap().size;
    assert_eq!(size_of(0), "0 B");
    assert_eq!(size_of(10), "10 B");
    assert_eq!(size_of(999), "999 B");
    assert_eq!(size_of(1000), "1 kB");
    assert_eq!(size_of(1500), "1.50 kB");
    assert_eq!(size_of(1_000_000), "1 MB");
    assert_eq!(size_of(u64::MAX), "18.45 EB");
}

#[test]
fn dates_are_written_under_the_pattern() {
    let entry = Entry {
        permitions: String::from("r-"),
        creation_date: Timestamp { secs: 1491137432, nanos: 0 },
        modification_date: Timestamp { secs: -1, nanos: 999_999_999 },
        size: 1,
        name: String::from("f"),
        entry_type: EntryType::Symlink,
    };
    let text = entry_text("%Y-%m-%d %H:%M:%S", &entry).unwrap();
    assert_eq!(text.created, "2017-04-02 12:50:32");
    assert_eq!(text.modified, "1969-12-31 23:59:59");
    assert_eq!(text.permitions, "r-");
    assert_eq!(text.name, "f");
    assert_eq!(text.entry_type, EntryType::Symlink);
    assert_eq!(entry_text("", &entry).unwrap().created, "");
    assert_eq!(entry_text("plain", &entry).unwrap().created, "plain");
}

#[test]
fn a_date_that_cannot_be_written_is_refused() {
    let good = Timestamp { secs: 0, nanos: 0 };
    let entry = |created: Timestamp, modified: Timestamp| Entry {
        permitions: String::from("rw"),
        creation_date: created,
        modification_date: modified,
        size: 1,
        name: String::from("f"),
        entry_type: EntryType::File,
    };
    assert!(entry_text("%Y", &entry(good, good)).is_some());
    assert!(entry_text("%", &entry(good, good)).is_none());
    assert!(entry_text("%Y", &entry(Timestamp { secs: i64::MAX, nanos: 0 }, good)).is_none());
    assert!(entry_text("%Y", &entry(good, Timestamp { secs: i64::MIN, nanos: 0 })).is_none());
    let entries = vec![
        entry(good, good),
        entry(good, Timestamp { secs: i64::MAX, nanos: 0 }),
        entry(Timestamp { secs: i64::MAX, nanos: 0 }, good),
    ];
    let conf = DisplayConf::default();
    assert_eq!(
        get_entrys_as_table(&conf, &entries).err(),
        Some(ProjectionError::UnwritableDate(1))
    );
    let bad_pattern = DisplayConf { date_format: String::from("%"), ..DisplayConf::default() };
    assert_eq!(
        get_entrys_as_table(&bad_pattern, &entries).err(),
        Some(ProjectionError::UnwritableDate(0))
    );
    assert!(get_entrys_as_table(&bad_pattern, &Vec::new()).is_ok());
}

#[test]
fn every_shown_column_has_one_cell_for_each_entry() {
    let texts = vec![
        text("a", "1 B", EntryType::File),
        text("b", "2 B", EntryType::Directory),
        text("c", "3 B", EntryType::Symlink),
        text("d", "4 B", EntryType::File),
    ];
    for permitions in [false, true] {
        for creation_date in [false, true] {
            for modification_date in [false, true] {
                for size in [false, true] {
                    let show = DisplayColumns { permitions, creation_date, modification_date, size };
                    let conf = DisplayConf { show, ..DisplayConf::default() };
                    let table = table_of_texts(&conf, &texts);
                    assert_eq!(table.rows(), 4);
                    for index in 0..4u32 {
                        assert!(table.has_row(index as usize));
                        let row = table.get(index);
                        let shown = [permitions, creation_date, modification_date, size];
                        let count = shown.iter().filter(|on| **on).count() + 1;
                        assert_eq!(row.len(), count);
                        assert_eq!(row.contains_key("permittions"), permitions);
                        assert_eq!(row.contains_key("created"), creation_date);
                        assert_eq!(row.contains_key("modified"), modification_date);
                        assert_eq!(row.contains_key("size"), size);
                        assert_eq!(row.last().unwrap().0, "name");
                    }
                    assert!(!table.has_row(4));
                }
            }
        }
    }
}

#[test]
fn no_entries_give_a_table_without_columns() {
    let table = table_of_texts(&all_columns(), &Vec::new());
    assert_eq!(table.rows(), 0);
    assert_eq!(table.get_headers(), "\n");
    assert!(table.get_values().is_err());
}

#[test]
fn a_directory_has_no_size_and_a_name_that_ends_in_a_slash() {
    let texts = vec![text("docs", "4.10 kB", EntryType::Directory)];
    let table = table_of_texts(&all_columns(), &texts);
    let row = table.get(0);
    assert_eq!(row.get("size").unwrap(), "");
    assert_eq!(row.get("name").unwrap(), "docs/");
    assert!(row.get("name").unwrap().ends_with('/'));
}

#[test]
fn a_symlink_keeps_its_size_and_gets_the_link_marker() {
    let texts = vec![text("latest", "7 B", EntryType::Symlink)];
    let table = table_of_texts(&all_columns(), &texts);
    let row = table.get(0);
    assert_eq!(row.get("size").unwrap(), "7 B");
    assert_eq!(row.get("name").unwrap(), "latest -> link");
}

#[test]
fn a_file_is_shown_as_it_is() {
    let texts = vec![text("c.txt", "10 B", EntryType::File)];
    let table = table_of_texts(&all_columns(), &texts);
    let row = table.get(0);
    assert_eq!(row.get("permittions").unwrap(), "rw");
    assert_eq!(row.get("created").unwrap(), "yesterday");
    assert_eq!(row.get("modified").unwrap(), "today");
    assert_eq!(row.get("size").unwrap(), "10 B");
    assert_eq!(row.get("name").unwrap(), "c.txt");
    assert_eq!(
        table.get_headers(),
        "permittions  created    modified  size  name   \n"
    );
}

#[test]
fn names_are_colored_by_kind_and_the_rest_by_default() {
    let conf = DisplayConf {
        dir_color: String::from("no-dir-color"),
        file_color: String::from("no-file-color"),
        ..only_names()
    };
    let texts = vec![
        text("a", "", EntryType::File),
        text("b", "", EntryType::Directory),
        text("c", "", EntryType::Symlink),
    ];
    let table = table_of_texts(&conf, &texts);
    assert_eq!(table.invalid_colors(), ["no-file-color", "no-dir-color", "no-file-color"]);
    let plain = table_of_texts(&all_columns(), &texts);
    assert!(plain.invalid_colors().is_empty());
}

#[test]
fn the_name_of_every_row_reads_back_with_its_suffix() {
    let texts = vec![
        text("..", "", EntryType::Directory),
        text("b", "", EntryType::Directory),
        text("c.txt", "", EntryType::File),
        text("l", "", EntryType::Symlink),
    ];
    let expected = ["../", "b/", "c.txt", "l -> link"];
    for conf in [all_columns(), only_names()] {
        let table = table_of_texts(&conf, &texts);
        for (index, name) in expected.iter().enumerate() {
            assert_eq!(table.get(index as u32).get("name").unwrap(), name);
        }
    }
}

#[test]
fn the_default_configuration_shows_everything_in_white() {
    let conf = DisplayConf::default();
    assert_eq!(conf.date_format, "%d/%m/%Y %H:%M");
    assert_eq!(conf.dir_color, "white");
    assert_eq!(conf.file_color, "white");
    assert!(conf.show.permitions && conf.show.creation_date);
    assert!(conf.show.modification_date && conf.show.size);
}

#[test]
fn a_date_that_cannot_be_written_is_left_blank() {
    let good = Timestamp { secs: 0, nanos: 0 };
    let bad = Timestamp { secs: i64::MAX, nanos: 0 };
    let entry = |name: &str, created: Timestamp, modified: Timestamp| Entry {
        permitions: String::from("rw"),
        creation_date: created,
        modification_date: modified,
        size: 10,
        name: String::from(name),
        entry_type: EntryType::File,
    };
    let entries = vec![entry("a", good, good), entry("b", good, bad), entry("c", bad, good)];
    let shown = project_or_degrade(&DisplayConf::default(), &entries);
    assert_eq!(shown.error, Some(ProjectionError::UnwritableDate(1)));
    assert_eq!(shown.table.rows(), 3);
    let b = shown.table.get(1);
    assert_eq!(b.get("created").unwrap(), "01/01/1970 00:00");
    assert_eq!(b.get("modified").unwrap(), "");
    assert_eq!(b.get("name").unwrap(), "b");
    assert_eq!(b.get("size").unwrap(), "10 B");
    let c = shown.table.get(2);
    assert_eq!(c.get("created").unwrap(), "");
    assert_eq!(c.get("modified").unwrap(), "01/01/1970 00:00");
    let bad_pattern = DisplayConf { date_format: String::from("%"), ..DisplayConf::default() };
    let shown = project_or_degrade(&bad_pattern, &entries);
    assert_eq!(shown.error, Some(ProjectionError::UnwritableDate(0)));
    assert_eq!(shown.table.rows(), 3);
    assert_eq!(shown.table.get(0).get("created").unwrap(), "");
    assert_eq!(shown.table.get(0).get("name").unwrap(), "a");
}

#[test]
fn dates_that_can_be_written_leave_nothing_to_report() {
    let date = Timestamp { secs: 1491137432, nanos: 0 };
    let entries = vec![Entry {
        permitions: String::from("r-"),
        creation_date: date,
        modification_date: date,
        size: 1500,
        name: String::from("f"),
        entry_type: EntryType::Symlink,
    }];
    let shown = project_or_degrade(&DisplayConf::default(), &entries);
    assert!(shown.error.is_none());
    let row = shown.table.get(0);
    assert_eq!(row.get("modified").unwrap(), "02/04/2017 12:50");
    assert_eq!(row.get("size").unwrap(), "1.50 kB");
    assert_eq!(row.get("name").unwrap(), "f -> link");
    assert!(project_or_degrade(&DisplayConf::default(), &Vec::new()).error.is_none());
}
