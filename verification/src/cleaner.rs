//! Cleaning up after the assembler: which of the entries beside a marker
//! log are left over and go, and which are results and stay.
//!
//! The caller walks the tree and removes what is named here; it looks at
//! each directory only when it has come to its marker, since removing one
//! directory changes what the walk finds in the next.

use vstd::prelude::*;
use crate::boundary::{glob_paths, malformed_pattern};
use crate::finder::DiscoveryError;
use crate::path::{components_of, has_name, is_named, join, join_path, parent, parent_dir};
use crate::text::{chars_of, rows, same_chars};

verus! {

/// An entry of a directory and what kind of thing it is.
pub struct Found {
    pub path: String,
    pub is_file: bool,
    pub is_dir: bool,
}

/// What a `Found` holds.
pub struct Item {
    pub path: Seq<char>,
    pub is_file: bool,
    pub is_dir: bool,
}

impl View for Found {
    type V = Item;

    open spec fn view(&self) -> Item {
        Item { path: self.path@, is_file: self.is_file, is_dir: self.is_dir }
    }
}

/// What each entry of `v` holds.
pub open spec fn items(v: Seq<Found>) -> Seq<Item> {
    v.map_values(|f: Found| f@)
}

/// What becomes of an entry.
#[derive(Clone, Copy, Debug, PartialEq, Eq, Structural)]
pub enum Removal {
    /// The entry stays.
    Keep,
    /// The entry is a file and is removed.
    File,
    /// The entry is a directory and is removed with all that is in it.
    Directory,
}

/// An entry to remove.
pub struct Deletion {
    pub path: String,
    /// Whether the entry is a directory, to be removed with all that is in
    /// it.
    pub recursive: bool,
}

/// What a `Deletion` holds.
pub struct Doomed {
    pub path: Seq<char>,
    pub recursive: bool,
}

impl View for Deletion {
    type V = Doomed;

    open spec fn view(&self) -> Doomed {
        Doomed { path: self.path@, recursive: self.recursive }
    }
}

/// What each deletion of `v` holds.
pub open spec fn dooms(v: Seq<Deletion>) -> Seq<Doomed> {
    v.map_values(|d: Deletion| d@)
}

/// Whether `path` names one of the files that a cleaning leaves alone: the
/// two results and the two logs, each known by its file name.
pub open spec fn is_result(path: Seq<char>) -> bool {
    ||| is_named(path, "contigs.fasta"@)
    ||| is_named(path, "scaffolds.fasta"@)
    ||| is_named(path, "spades.log"@)
    ||| is_named(path, "warnings.log"@)
}

/// What becomes of the entry `item`: a file goes unless it is a result or a
/// log, a directory goes whatever its name and whatever it holds.
pub open spec fn removal_of(item: Item) -> Removal {
    if item.is_file && !is_result(item.path) {
        Removal::File
    } else if item.is_dir {
        Removal::Directory
    } else {
        Removal::Keep
    }
}

/// The entries of `contents` that go, in order.
pub open spec fn removals(contents: Seq<Item>) -> Seq<Doomed>
    decreases contents.len(),
{
    if contents.len() == 0 {
        Seq::empty()
    } else {
        let before = removals(contents.drop_last());
        match removal_of(contents.last()) {
            Removal::Keep => before,
            Removal::File => before.push(Doomed { path: contents.last().path, recursive: false }),
            Removal::Directory => before.push(
                Doomed { path: contents.last().path, recursive: true },
            ),
        }
    }
}

/// Whether `path` is a marker: a path whose last component is the
/// assembler's log.
pub open spec fn is_marker(path: Seq<char>) -> bool {
    is_named(path, "spades.log"@)
}

/// The pattern that finds every entry of the directory `dir`.
pub open spec fn contents_pattern(dir: Seq<char>) -> Seq<char> {
    join(dir, "*"@)
}

/// The directory to clean for the walked path `path`: the one that holds
/// it, where `path` is a marker.
pub open spec fn marked_dir(path: Seq<char>) -> Option<Seq<char>> {
    if is_marker(path) {
        Some(parent(path))
    } else {
        None
    }
}

/// The line above the list of what was removed.
pub open spec fn removed_heading() -> Seq<char> {
    "\x1b[0;33mRemoved files and directories:\x1b[0m\n"@
}

/// A cleaning leaves the results and the logs of a directory alone and
/// removes every directory beside them, whatever it is called and
/// whatever it holds.
pub proof fn lemma_results_stay_directories_go(item: Item)
    ensures
        item.is_file && !item.is_dir && is_result(item.path) ==> removal_of(item)
            == Removal::Keep,
        item.is_dir && !item.is_file ==> removal_of(item) == Removal::Directory,
        item.is_file && !is_result(item.path) ==> removal_of(item) == Removal::File,
        !item.is_file && !item.is_dir ==> removal_of(item) == Removal::Keep,
{
}

/// Every entry that a cleaning removes is one of the listing that goes:
/// nothing that stays, and nothing from elsewhere, is ever named.
pub proof fn lemma_removed_entries_go(contents: Seq<Item>, j: int)
    requires
        0 <= j < removals(contents).len(),
    ensures
        exists|i: int|
            0 <= i < contents.len() && removal_of(#[trigger] contents[i]) != Removal::Keep
                && contents[i].path == removals(contents)[j].path && removals(
                contents,
            )[j].recursive == (removal_of(contents[i]) == Removal::Directory),
    decreases contents.len(),
{
    let before = contents.drop_last();
    if j < removals(before).len() {
        lemma_removed_entries_go(before, j);
        let i = choose|i: int|
            0 <= i < before.len() && removal_of(#[trigger] before[i]) != Removal::Keep
                && before[i].path == removals(before)[j].path && removals(before)[j].recursive
                == (removal_of(before[i]) == Removal::Directory);
        assert(contents[i] == before[i]);
    } else {
        assert(contents[contents.len() - 1] == contents.last());
    }
}

/// Every entry of a listing that goes is removed.
pub proof fn lemma_entries_that_go_are_removed(contents: Seq<Item>, i: int)
    requires
        0 <= i < contents.len(),
        removal_of(contents[i]) != Removal::Keep,
    ensures
        exists|j: int|
            0 <= j < removals(contents).len() && #[trigger] removals(contents)[j].path
                == contents[i].path,
    decreases contents.len(),
{
    let before = contents.drop_last();
    if i < contents.len() - 1 {
        assert(before[i] == contents[i]);
        lemma_entries_that_go_are_removed(before, i);
        let j = choose|j: int|
            0 <= j < removals(before).len() && #[trigger] removals(before)[j].path
                == before[i].path;
        assert(removals(contents)[j] == removals(before)[j]);
    } else {
        let j = removals(contents).len() - 1;
        assert(removals(contents)[j].path == contents[i].path);
    }
}

/// The line above the list of what was removed, ready to be written out.
pub fn removed_header() -> (out: String)
    ensures
        out@ == removed_heading(),
{
    "\x1b[0;33mRemoved files and directories:\x1b[0m\n".to_owned()
}

/// The directory to clean for the walked path `path`.
pub fn marker_dir(path: &str) -> (dir: Option<String>)
    ensures
        crate::finder::opt_text(dir) == marked_dir(path@),
{
    if has_name(path, "spades.log") {
        Some(parent_dir(path))
    } else {
        None
    }
}

/// Whether `path` names a file that a cleaning leaves alone.
pub fn is_result_path(path: &str) -> (b: bool)
    ensures
        b == is_result(path@),
{
    let parts = components_of(&chars_of(path));
    if parts.len() == 0 {
        false
    } else {
        let name = &parts[parts.len() - 1];
        assert(rows(parts@).last() == name@);
        same_chars(name, &chars_of("contigs.fasta")) || same_chars(
            name,
            &chars_of("scaffolds.fasta"),
        ) || same_chars(name, &chars_of("spades.log")) || same_chars(
            name,
            &chars_of("warnings.log"),
        )
    }
}

/// What becomes of the entry `found`.
pub fn removal_for(found: &Found) -> (r: Removal)
    ensures
        r == removal_of(found@),
{
    if found.is_file && !is_result_path(found.path.as_str()) {
        Removal::File
    } else if found.is_dir {
        Removal::Directory
    } else {
        Removal::Keep
    }
}

/// Every entry of the directory `path`, as the disk holds them. The search
/// fails exactly when the directory's name makes a malformed pattern.
pub fn find_files(path: &str) -> (r: Result<Vec<String>, DiscoveryError>)
    ensures
        r is Err <==> malformed_pattern(contents_pattern(path@)),
        r matches Err(e) ==> e == DiscoveryError::InvalidPattern,
{
    let patterns = join_path(path, "*");
    match glob_paths(patterns.as_str()) {
        Ok(found) => Ok(found),
        Err(_) => Err(DiscoveryError::InvalidPattern),
    }
}

/// The entries of `contents` that are to be removed, in order.
pub fn remove_contents(contents: &Vec<Found>) -> (out: Vec<Deletion>)
    ensures
        dooms(out@) == removals(items(contents@)),
{
    let mut out: Vec<Deletion> = Vec::new();
    let mut i: usize = 0;
    let ghost all = items(contents@);
    assert(all.take(0) == Seq::<Item>::empty());
    while i < contents.len()
        invariant
            i <= contents.len(),
            all == items(contents@),
            dooms(out@) == removals(all.take(i as int)),
        decreases contents.len() - i,
    {
        let found = &contents[i];
        proof {
            let next = all.take(i as int + 1);
            assert(next.drop_last() == all.take(i as int));
            assert(next.last() == found@);
        }
        match removal_for(found) {
            Removal::Keep => {},
            Removal::File => {
                let d = Deletion { path: found.path.clone(), recursive: false };
                assert(dooms(out@.push(d)) == dooms(out@).push(d@));
                out.push(d);
            },
            Removal::Directory => {
                let d = Deletion { path: found.path.clone(), recursive: true };
                assert(dooms(out@.push(d)) == dooms(out@).push(d@));
                out.push(d);
            },
        }
        i += 1;
    }
    assert(all.take(contents.len() as int) == all);
    out
}

} // verus!
