//! Directory entries: how the facts that the file system reports about a
//! directory become the entries of a listing. Reading the file system is
//! the caller's; this module takes what was read.

use vstd::prelude::*;
use vstd::string::StringExecFns;

verus! {

/// What an entry is.
#[derive(Clone, Copy, Debug, PartialEq, Eq, Structural)]
pub enum EntryType {
    Directory,
    File,
    Symlink,
}

/// A point in time: seconds and nanoseconds since the start of 1970 in
/// UTC.
#[derive(Clone, Copy, Debug, PartialEq, Eq, Structural)]
pub struct Timestamp {
    pub secs: i64,
    pub nanos: u32,
}

/// One row of a listing: a child of the directory, or the way up.
pub struct Entry {
    pub permitions: String,
    pub creation_date: Timestamp,
    pub modification_date: Timestamp,
    pub size: u64,
    pub name: String,
    pub entry_type: EntryType,
}

/// The mathematical value of an [`Entry`].
pub struct EntryView {
    pub permitions: Seq<char>,
    pub creation_date: Timestamp,
    pub modification_date: Timestamp,
    pub size: u64,
    pub name: Seq<char>,
    pub entry_type: EntryType,
}

impl View for Entry {
    type V = EntryView;

    open spec fn view(&self) -> EntryView {
        EntryView {
            permitions: self.permitions@,
            creation_date: self.creation_date,
            modification_date: self.modification_date,
            size: self.size,
            name: self.name@,
            entry_type: self.entry_type,
        }
    }
}

/// The values of a sequence of entries.
pub open spec fn entry_views(entries: Seq<Entry>) -> Seq<EntryView> {
    entries.map_values(|entry: Entry| entry@)
}

/// What the file system reports about one file.
#[derive(Clone, Copy, Debug, PartialEq, Eq, Structural)]
pub struct FileFacts {
    pub readonly: bool,
    pub created: Timestamp,
    pub modified: Timestamp,
    pub len: u64,
    pub is_dir: bool,
    pub is_symlink: bool,
}

/// A failed read: the kind of the error and its message.
pub struct Failure {
    pub kind: String,
    pub message: String,
}

/// The mathematical value of a [`Failure`].
pub struct FailureView {
    pub kind: Seq<char>,
    pub message: Seq<char>,
}

impl View for Failure {
    type V = FailureView;

    open spec fn view(&self) -> FailureView {
        FailureView { kind: self.kind@, message: self.message@ }
    }
}

impl Clone for Failure {
    fn clone(&self) -> (copy: Self)
        ensures
            copy@ == self@,
    {
        Failure { kind: self.kind.clone(), message: self.message.clone() }
    }
}

/// A child of a directory: its name and what was read about it.
pub struct Child {
    pub name: String,
    pub facts: FileFacts,
}

/// What reading a directory gave: the facts about its parent, where it
/// has one, and its children in the order in which they were read, with
/// a failure in the place of whatever could not be read.
pub struct Scan {
    pub parent: Option<Result<FileFacts, Failure>>,
    pub children: Result<Vec<Result<Child, Failure>>, Failure>,
}

/// The name of the entry that leads up one level.
pub open spec fn parent_name() -> Seq<char> {
    ".."@
}

/// The summary of a file's permissions: `r-` where it cannot be written
/// to, `rw` where it can.
pub open spec fn permission_summary(readonly: bool) -> Seq<char> {
    if readonly {
        "r-"@
    } else {
        "rw"@
    }
}

/// What a file is: a directory where it is reported as one; else a
/// symbolic link where it is reported as one; else a plain file.
pub open spec fn kind_of(is_dir: bool, is_symlink: bool) -> EntryType {
    if is_dir {
        EntryType::Directory
    } else if is_symlink {
        EntryType::Symlink
    } else {
        EntryType::File
    }
}

/// The entry that leads up to a parent with the facts `facts`.
pub open spec fn parent_entry(facts: FileFacts) -> EntryView {
    EntryView {
        permitions: permission_summary(facts.readonly),
        creation_date: facts.created,
        modification_date: facts.modified,
        size: 0,
        name: parent_name(),
        entry_type: EntryType::Directory,
    }
}

/// The entry of a child.
pub open spec fn child_entry(child: Child) -> EntryView {
    EntryView {
        permitions: permission_summary(child.facts.readonly),
        creation_date: child.facts.created,
        modification_date: child.facts.modified,
        size: child.facts.len,
        name: child.name@,
        entry_type: kind_of(child.facts.is_dir, child.facts.is_symlink),
    }
}

/// The first failure among the children, in reading order.
pub open spec fn first_child_failure(children: Seq<Result<Child, Failure>>) -> Option<FailureView>
    decreases children.len(),
{
    if children.len() == 0 {
        None
    } else {
        match children[0] {
            Err(failure) => Some(failure@),
            Ok(_) => first_child_failure(children.drop_first()),
        }
    }
}

/// The failure that ends the enumeration, if any: that of the parent,
/// else that of the directory itself, else the first among the children.
pub open spec fn first_failure(scan: Scan) -> Option<FailureView> {
    match scan.parent {
        Some(Err(failure)) => Some(failure@),
        _ => match scan.children {
            Err(failure) => Some(failure@),
            Ok(children) => first_child_failure(children@),
        },
    }
}

/// The entry of the parent, where the directory has one whose facts
/// were read.
pub open spec fn parent_entries(scan: Scan) -> Seq<EntryView> {
    match scan.parent {
        Some(Ok(facts)) => seq![parent_entry(facts)],
        _ => Seq::empty(),
    }
}

/// The entries of the children that were read.
pub open spec fn child_entries(children: Seq<Result<Child, Failure>>) -> Seq<EntryView> {
    children.filter(|child: Result<Child, Failure>| child is Ok).map_values(
        |child: Result<Child, Failure>| child_entry(child->Ok_0),
    )
}

/// The listing of a directory that was read without a failure: the way
/// up first, where there is a parent, then the children in reading
/// order.
pub open spec fn listing(scan: Scan) -> Seq<EntryView> {
    match scan.children {
        Ok(children) => parent_entries(scan) + child_entries(children@),
        Err(_) => parent_entries(scan),
    }
}

/// The summary of a file's permissions.
pub fn permitions_to_string(readonly: bool) -> (summary: String)
    ensures
        summary@ == permission_summary(readonly),
{
    if readonly {
        String::from_str("r-")
    } else {
        String::from_str("rw")
    }
}

/// What a file is, from what the file system reports about it.
pub fn get_entry_type(is_dir: bool, is_symlink: bool) -> (kind: EntryType)
    ensures
        kind == kind_of(is_dir, is_symlink),
{
    if is_dir {
        return EntryType::Directory;
    } else if is_symlink {
        return EntryType::Symlink;
    }
    EntryType::File
}

fn entry_of_parent(facts: &FileFacts) -> (entry: Entry)
    ensures
        entry@ == parent_entry(*facts),
{
    Entry {
        permitions: permitions_to_string(facts.readonly),
        creation_date: facts.created,
        modification_date: facts.modified,
        size: 0,
        entry_type: EntryType::Directory,
        name: String::from_str(".."),
    }
}

fn entry_of_child(child: &Child) -> (entry: Entry)
    ensures
        entry@ == child_entry(*child),
{
    Entry {
        permitions: permitions_to_string(child.facts.readonly),
        creation_date: child.facts.created,
        modification_date: child.facts.modified,
        size: child.facts.len,
        entry_type: get_entry_type(child.facts.is_dir, child.facts.is_symlink),
        name: child.name.clone(),
    }
}

/// The listing of a directory from what was read of it: the entry that
/// leads up, where the directory has a parent, then one entry for each
/// child in reading order. Fails with the first failure of the scan,
/// where there is one.
pub fn list_dir(scan: &Scan) -> (entries: Result<Vec<Entry>, Failure>)
    ensures
        match entries {
            Ok(found) => first_failure(*scan) is None && entry_views(found@) == listing(*scan),
            Err(failure) => first_failure(*scan) == Some(failure@),
        },
{
    let mut ils: Vec<Entry> = Vec::new();
    match &scan.parent {
        Some(Ok(facts)) => {
            ils.push(entry_of_parent(facts));
        },
        Some(Err(failure)) => {
            return Err(failure.clone());
        },
        None => {},
    }
    assert(entry_views(ils@) == parent_entries(*scan));
    match &scan.children {
        Err(failure) => Err(failure.clone()),
        Ok(children) => {
            let ghost keep = |child: Result<Child, Failure>| child is Ok;
            let ghost entry = |child: Result<Child, Failure>| child_entry(child->Ok_0);
            let mut at: usize = 0;
            proof {
                reveal(Seq::filter);
                assert(children@.take(0).filter(keep).map_values(entry) == Seq::<EntryView>::empty());
                assert(children@.skip(0) == children@);
            }
            while at < children.len()
                invariant
                    at <= children.len(),
                    !(scan.parent matches Some(Err(_))),
                    scan.children matches Ok(all) && all@ == children@,
                    keep == |child: Result<Child, Failure>| child is Ok,
                    entry == |child: Result<Child, Failure>| child_entry(child->Ok_0),
                    first_child_failure(children@) == first_child_failure(children@.skip(at as int)),
                    entry_views(ils@) == parent_entries(*scan) + children@.take(at as int).filter(
                        keep,
                    ).map_values(entry),
                decreases children.len() - at,
            {
                let ghost rest = children@.skip(at as int);
                proof {
                    assert(rest[0] == children@[at as int]);
                    assert(rest.drop_first() == children@.skip(at + 1));
                }
                match &children[at] {
                    Ok(child) => {
                        let ghost had = ils@;
                        ils.push(entry_of_child(child));
                        proof {
                            reveal(Seq::filter);
                            let upto = children@.take(at + 1);
                            assert(upto.drop_last() == children@.take(at as int));
                            assert(upto.last() == children@[at as int]);
                            assert(entry_views(ils@) == entry_views(had).push(child_entry(*child)));
                            assert(upto.filter(keep).map_values(entry) == children@.take(
                                at as int,
                            ).filter(keep).map_values(entry).push(child_entry(*child)));
                        }
                    },
                    Err(failure) => {
                        return Err(failure.clone());
                    },
                }
                at += 1;
            }
            proof {
                assert(children@.take(children.len() as int) == children@);
                assert(children@.skip(children.len() as int).len() == 0);
            }
            Ok(ils)
        },
    }
}

/// A listing, and the failure that cut it short, if any.
pub struct Listing {
    pub entries: Vec<Entry>,
    pub failure: Option<Failure>,
}

/// The listing of a directory from what was read of it, degraded rather
/// than refused where reading failed: the full listing where nothing
/// failed; else the failure, with the way up as the only entry where
/// the directory has a parent whose facts were read, and with no entry
/// at all where it has not.
pub fn list_or_degrade(scan: &Scan) -> (shown: Listing)
    ensures
        match first_failure(*scan) {
            None => shown.failure is None && entry_views(shown.entries@) == listing(*scan),
            Some(failure) => shown.failure matches Some(reported) && reported@ == failure
                && entry_views(shown.entries@) == parent_entries(*scan),
        },
{
    match list_dir(scan) {
        Ok(entries) => Listing { entries, failure: None },
        Err(failure) => {
            let mut entries: Vec<Entry> = Vec::new();
            match &scan.parent {
                Some(Ok(facts)) => {
                    entries.push(entry_of_parent(facts));
                },
                _ => {},
            }
            assert(entry_views(entries@) == parent_entries(*scan));
            Listing { entries, failure: Some(failure) }
        },
    }
}

/// A file that is reported as a symbolic link, and not as a directory,
/// is a symbolic link: what it points at plays no part.
pub proof fn lemma_symlink_kind(is_dir: bool, is_symlink: bool)
    requires
        is_symlink,
        !is_dir,
    ensures
        kind_of(is_dir, is_symlink) == EntryType::Symlink,
{
}

} // verus!
