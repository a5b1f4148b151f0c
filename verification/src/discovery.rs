//! Finding the examples of a package: what lies in its examples directory,
//! and what its manifest declares.

use crate::example::{label, labelled, labelled_views, Example, ExampleView, Labelled, LabelledView};
use crate::paths::{extension, extension_of, join, joined};
use crate::sorting::{is_stable_sort_of, sort_by_name};
use crate::text::{lemma_present_push, present, text_of, texts};
use vstd::prelude::*;
use vstd::string::StringExecFns;

verus! {

/// What was seen of one entry of the examples directory.
#[derive(Debug, PartialEq, Eq)]
pub struct DirectoryEntry {
    /// The entry's path.
    pub path: String,
    /// The path leads to a regular file.
    pub is_file: bool,
    /// The path leads to a directory.
    pub is_dir: bool,
    /// `entry_point_path` of the path leads to a regular file.
    pub has_entry_point: bool,
    /// `nested_manifest_path` of the path leads to a regular file.
    pub has_manifest: bool,
}

/// A directory entry over characters.
pub ghost struct DirectoryEntryView {
    pub path: Seq<char>,
    pub is_file: bool,
    pub is_dir: bool,
    pub has_entry_point: bool,
    pub has_manifest: bool,
}

impl View for DirectoryEntry {
    type V = DirectoryEntryView;

    open spec fn view(&self) -> DirectoryEntryView {
        DirectoryEntryView {
            path: self.path@,
            is_file: self.is_file,
            is_dir: self.is_dir,
            has_entry_point: self.has_entry_point,
            has_manifest: self.has_manifest,
        }
    }
}

/// The views of a list of directory entries.
pub open spec fn entry_views(entries: Seq<DirectoryEntry>) -> Seq<DirectoryEntryView> {
    entries.map_values(|e: DirectoryEntry| e@)
}

/// The entry point of a multi-file example kept in `dir`.
pub open spec fn entry_point_of(dir: Seq<char>) -> Seq<char> {
    joined(dir, "main.rs"@)
}

/// The manifest of a sub-project kept in `dir`.
pub open spec fn nested_manifest_of(dir: Seq<char>) -> Seq<char> {
    joined(dir, "Cargo.toml"@)
}

/// The example that a directory entry makes, if any.
///
/// A regular file is an example where its extension is `rs`. A directory is
/// one where it holds an entry point, and else where it holds a manifest.
/// Nothing else is.
pub open spec fn classified(entry: DirectoryEntryView) -> Option<ExampleView> {
    if entry.is_file {
        if extension_of(entry.path) == Some("rs"@) {
            Some(ExampleView::File(entry.path))
        } else {
            None
        }
    } else if entry.is_dir {
        if entry.has_entry_point {
            Some(ExampleView::MultiFile(entry_point_of(entry.path)))
        } else if entry.has_manifest {
            Some(ExampleView::SubProject(nested_manifest_of(entry.path)))
        } else {
            None
        }
    } else {
        None
    }
}

/// The labelled example that a directory entry makes: none where it makes
/// no example, and none where the example yields no name.
pub open spec fn found_at(entry: DirectoryEntryView) -> Option<LabelledView> {
    match classified(entry) {
        Some(example) => labelled(example),
        None => None,
    }
}

/// The labelled examples that the entries make, in the order of the entries.
pub open spec fn found_in(entries: Seq<DirectoryEntryView>) -> Seq<LabelledView> {
    present(entries.map_values(|e: DirectoryEntryView| found_at(e)))
}

/// The example declared under `name`.
pub open spec fn declared_as(name: Seq<char>) -> LabelledView {
    LabelledView { name, example: ExampleView::Named(name) }
}

/// The examples declared under `names`, in that order.
pub open spec fn declared_all(names: Seq<Seq<char>>) -> Seq<LabelledView> {
    names.map_values(|name: Seq<char>| declared_as(name))
}

/// Every example of `list` is labelled with the name that its shape yields.
pub open spec fn all_well_named(list: Seq<LabelledView>) -> bool {
    forall|i: int| 0 <= i < list.len() ==> (#[trigger] list[i]).well_named()
}

/// The path to probe for the entry point of a multi-file example in `dir`.
pub fn entry_point_path(dir: &str) -> (path: String)
    ensures
        path@ == entry_point_of(dir@),
{
    join(dir, "main.rs")
}

/// The path to probe for the manifest of a sub-project in `dir`.
pub fn nested_manifest_path(dir: &str) -> (path: String)
    ensures
        path@ == nested_manifest_of(dir@),
{
    join(dir, "Cargo.toml")
}

/// Whether `extension` is that of a source file: `rs`, as it is written.
pub fn is_source_extension(extension: &Option<String>) -> (r: bool)
    ensures
        r == (text_of(*extension) == Some("rs"@)),
{
    match extension {
        Some(found) => *found == String::from_str("rs"),
        None => false,
    }
}

/// Classifies one directory entry.
pub fn classify(entry: &DirectoryEntry) -> (r: Option<Example>)
    ensures
        match r {
            Some(example) => classified(entry@) == Some(example@),
            None => classified(entry@) is None,
        },
{
    if entry.is_file {
        if is_source_extension(&extension(entry.path.as_str())) {
            Some(Example::File(entry.path.clone()))
        } else {
            None
        }
    } else if entry.is_dir {
        if entry.has_entry_point {
            Some(Example::MultiFile(entry_point_path(entry.path.as_str())))
        } else if entry.has_manifest {
            Some(Example::SubProject(nested_manifest_path(entry.path.as_str())))
        } else {
            None
        }
    } else {
        None
    }
}

/// The labelled examples among `entries`, in the order of the entries.
pub fn scan(entries: &Vec<DirectoryEntry>) -> (found: Vec<Labelled>)
    ensures
        labelled_views(found@) == found_in(entry_views(entries@)),
{
    let ghost all = entry_views(entries@).map_values(|e: DirectoryEntryView| found_at(e));
    let mut found: Vec<Labelled> = Vec::new();
    let mut i: usize = 0;
    while i < entries.len()
        invariant
            i <= entries.len(),
            all == entry_views(entries@).map_values(|e: DirectoryEntryView| found_at(e)),
            labelled_views(found@) == present(all.subrange(0, i as int)),
        decreases entries.len() - i,
    {
        let ghost before = labelled_views(found@);
        proof {
            lemma_present_push(all.subrange(0, i as int), all[i as int]);
            assert(all.subrange(0, i + 1) =~= all.subrange(0, i as int).push(all[i as int]));
            assert(all[i as int] == found_at(entries@[i as int]@));
        }
        match classify(&entries[i]) {
            Some(example) => match label(example) {
                Some(item) => {
                    let ghost view = item@;
                    found.push(item);
                    assert(labelled_views(found@) =~= before.push(view));
                },
                None => {},
            },
            None => {},
        }
        i += 1;
    }
    assert(all.subrange(0, i as int) =~= all);
    found
}

/// Adds the examples declared under `names` to `found`, behind what it
/// holds.
pub fn add_declared(found: &mut Vec<Labelled>, names: &Vec<String>)
    ensures
        labelled_views(final(found)@) == labelled_views(old(found)@) + declared_all(texts(names@)),
{
    let ghost start = labelled_views(found@);
    let mut i: usize = 0;
    assert(declared_all(texts(names@)).subrange(0, 0) =~= Seq::empty());
    assert(start + Seq::empty() =~= start);
    while i < names.len()
        invariant
            i <= names.len(),
            labelled_views(found@) == start + declared_all(texts(names@)).subrange(0, i as int),
        decreases names.len() - i,
    {
        let ghost before = labelled_views(found@);
        let name = names[i].clone();
        found.push(Labelled { name: name.clone(), example: Example::Named(name) });
        proof {
            assert(labelled_views(found@) =~= before.push(declared_as(names@[i as int]@)));
            assert(declared_all(texts(names@)).subrange(0, i + 1) =~= declared_all(
                texts(names@),
            ).subrange(0, i as int).push(declared_as(names@[i as int]@)));
            assert(labelled_views(found@) =~= start + declared_all(texts(names@)).subrange(
                0,
                i + 1,
            ));
        }
        i += 1;
    }
    assert(declared_all(texts(names@)).subrange(0, i as int) =~= declared_all(texts(names@)));
}

/// What is found in a directory is well named.
pub proof fn lemma_found_well_named(entries: Seq<DirectoryEntryView>)
    ensures
        all_well_named(found_in(entries)),
    decreases entries.len(),
{
    let all = entries.map_values(|e: DirectoryEntryView| found_at(e));
    if entries.len() > 0 {
        lemma_found_well_named(entries.drop_last());
        assert(all.drop_last() =~= entries.drop_last().map_values(
            |e: DirectoryEntryView| found_at(e),
        ));
    }
}

/// All examples of a package in running order: those among `entries` and
/// those declared under `declared`, merged and then sorted by name, examples
/// of one name staying in the order found first, declared second.
pub fn discover(entries: &Vec<DirectoryEntry>, declared: &Vec<String>) -> (list: Vec<Labelled>)
    ensures
        is_stable_sort_of(
            labelled_views(list@),
            found_in(entry_views(entries@)) + declared_all(texts(declared@)),
        ),
        all_well_named(labelled_views(list@)),
{
    let mut found = scan(entries);
    add_declared(&mut found, declared);
    let list = sort_by_name(found);
    proof {
        let merged = found_in(entry_views(entries@)) + declared_all(texts(declared@));
        let sorted = labelled_views(list@);
        lemma_found_well_named(entry_views(entries@));
        assert(all_well_named(merged));
        assert forall|i: int| 0 <= i < sorted.len() implies (#[trigger] sorted[i]).well_named() by {
            broadcast use vstd::seq_lib::group_to_multiset_ensures;
            assert(sorted.contains(sorted[i]));
            assert(sorted.to_multiset().count(sorted[i]) > 0);
            assert(merged.contains(sorted[i]));
        }
    }
    list
}

} // verus!
