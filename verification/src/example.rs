//! The shapes an example can take, and the name each goes by.

use crate::paths::{file_name, file_name_of, file_stem, file_stem_of, parent, parent_of};
use crate::text::text_of;
use vstd::prelude::*;

verus! {

/// A runnable example of a package.
#[derive(Debug, PartialEq, Eq)]
pub enum Example {
    /// A source file directly inside the examples directory; holds the
    /// file's path.
    File(String),
    /// A directory with an entry-point source file; holds the path of that
    /// file.
    MultiFile(String),
    /// A directory with a manifest of its own; holds the path of that
    /// manifest.
    SubProject(String),
    /// A name declared in the package's manifest.
    Named(String),
}

/// An example as the contracts see it: its shape, over the characters of its
/// path or name.
pub ghost enum ExampleView {
    File(Seq<char>),
    MultiFile(Seq<char>),
    SubProject(Seq<char>),
    Named(Seq<char>),
}

impl View for Example {
    type V = ExampleView;

    open spec fn view(&self) -> ExampleView {
        match self {
            Example::File(path) => ExampleView::File(path@),
            Example::MultiFile(path) => ExampleView::MultiFile(path@),
            Example::SubProject(path) => ExampleView::SubProject(path@),
            Example::Named(name) => ExampleView::Named(name@),
        }
    }
}

impl ExampleView {
    /// The name an example goes by: the file stem of a single file, the name
    /// of the directory that holds an entry point or a manifest, the name
    /// itself where it was declared. `None` where the path yields none.
    pub open spec fn name(self) -> Option<Seq<char>> {
        match self {
            ExampleView::File(path) => file_stem_of(path),
            ExampleView::MultiFile(path) | ExampleView::SubProject(path) => match parent_of(path) {
                Some(dir) => file_name_of(dir),
                None => None,
            },
            ExampleView::Named(name) => Some(name),
        }
    }
}

impl Example {
    /// The name this example goes by, if its path yields one.
    pub fn name(&self) -> (r: Option<String>)
        ensures
            text_of(r) == self@.name(),
    {
        match self {
            Example::File(path) => file_stem(path.as_str()),
            Example::MultiFile(path) | Example::SubProject(path) => match parent(path.as_str()) {
                Some(dir) => file_name(dir.as_str()),
                None => None,
            },
            Example::Named(name) => Some(name.clone()),
        }
    }
}

/// An example together with the name it is listed, selected and run by.
#[derive(Debug, PartialEq, Eq)]
pub struct Labelled {
    pub name: String,
    pub example: Example,
}

/// A labelled example over characters.
pub ghost struct LabelledView {
    pub name: Seq<char>,
    pub example: ExampleView,
}

impl View for Labelled {
    type V = LabelledView;

    open spec fn view(&self) -> LabelledView {
        LabelledView { name: self.name@, example: self.example@ }
    }
}

impl LabelledView {
    /// The label is the name that the example's shape yields.
    pub open spec fn well_named(self) -> bool {
        self.example.name() == Some(self.name)
    }
}

/// The views of a list of labelled examples.
pub open spec fn labelled_views(list: Seq<Labelled>) -> Seq<LabelledView> {
    list.map_values(|l: Labelled| l@)
}

/// The names of a list of labelled examples.
pub open spec fn names_of(list: Seq<LabelledView>) -> Seq<Seq<char>> {
    list.map_values(|l: LabelledView| l.name)
}

/// `example` with its name, or `None` where its path yields no name.
pub open spec fn labelled(example: ExampleView) -> Option<LabelledView> {
    match example.name() {
        Some(name) => Some(LabelledView { name, example }),
        None => None,
    }
}

/// Attaches to `example` the name it goes by; `None` where it has none.
pub fn label(example: Example) -> (r: Option<Labelled>)
    ensures
        match r {
            Some(l) => labelled(example@) == Some(l@),
            None => labelled(example@) is None,
        },
{
    match example.name() {
        Some(name) => Some(Labelled { name, example }),
        None => None,
    }
}

} // verus!
