//! The build-tool command that runs one example.

use crate::example::{Example, ExampleView};
use crate::text::{text_of, texts};
use vstd::prelude::*;
use vstd::string::StringExecFns;

verus! {

/// A command to spawn: the program and its arguments, each passed as it is.
#[derive(Debug, PartialEq, Eq)]
pub struct Invocation {
    pub program: String,
    pub args: Vec<String>,
}

/// An invocation over characters.
pub ghost struct InvocationView {
    pub program: Seq<char>,
    pub args: Seq<Seq<char>>,
}

impl View for Invocation {
    type V = InvocationView;

    open spec fn view(&self) -> InvocationView {
        InvocationView { program: self.program@, args: texts(self.args@) }
    }
}

/// The items with a comma between each two.
pub open spec fn comma_separated(items: Seq<Seq<char>>) -> Seq<char>
    decreases items.len(),
{
    if items.len() == 0 {
        Seq::empty()
    } else if items.len() == 1 {
        items[0]
    } else {
        comma_separated(items.drop_last()) + seq![','] + items.last()
    }
}

/// The argument that enables `features`: empty where there are none, else
/// `--features=` followed by the features, comma-separated.
pub open spec fn features_flag(features: Seq<Seq<char>>) -> Seq<char> {
    if features.len() == 0 {
        Seq::empty()
    } else {
        "--features="@ + comma_separated(features)
    }
}

/// The invocation that runs `example` under the name `name`.
///
/// A sub-project is run through its own manifest, which designates its entry
/// point; every other shape through the package's manifest, selected by name.
/// The features argument is always passed, even when empty, and `extra`
/// follows it as one argument.
pub open spec fn invocation_for(
    example: ExampleView,
    name: Seq<char>,
    manifest_path: Seq<char>,
    flag: Seq<char>,
    extra: Option<Seq<char>>,
) -> InvocationView {
    let target = match example {
        ExampleView::SubProject(own_manifest) => seq!["--manifest-path"@, own_manifest],
        _ => seq!["--manifest-path"@, manifest_path, "--example"@, name],
    };
    let tail = match extra {
        Some(arg) => seq![flag, arg],
        None => seq![flag],
    };
    InvocationView { program: "cargo"@, args: seq!["run"@] + target + tail }
}

/// Builds the argument that enables `features`.
pub fn build_features_flag(features: &Vec<String>) -> (flag: String)
    ensures
        flag@ == features_flag(texts(features@)),
{
    if features.len() == 0 {
        return String::new();
    }
    let mut flag = String::from_str("--features=");
    let ghost all = texts(features@);
    let mut i: usize = 0;
    while i < features.len()
        invariant
            i <= features.len(),
            all == texts(features@),
            flag@ == "--features="@ + comma_separated(all.subrange(0, i as int)),
        decreases features.len() - i,
    {
        proof {
            reveal_strlit(",");
            assert(","@ =~= seq![',']);
            assert(all.subrange(0, i + 1).drop_last() =~= all.subrange(0, i as int));
            assert(all.subrange(0, i + 1).last() == features@[i as int]@);
        }
        if i > 0 {
            flag.append(",");
        }
        flag.append(features[i].as_str());
        i += 1;
    }
    assert(all.subrange(0, i as int) =~= all);
    flag
}

/// Builds the invocation that runs `example` under the name `name`.
pub fn build_invocation(
    example: &Example,
    name: &String,
    manifest_path: &String,
    flag: &String,
    extra: &Option<String>,
) -> (invocation: Invocation)
    ensures
        invocation@ == invocation_for(example@, name@, manifest_path@, flag@, text_of(*extra)),
{
    let mut args: Vec<String> = Vec::new();
    args.push(String::from_str("run"));
    args.push(String::from_str("--manifest-path"));
    match example {
        Example::SubProject(own_manifest) => {
            args.push(own_manifest.clone());
        },
        _ => {
            args.push(manifest_path.clone());
            args.push(String::from_str("--example"));
            args.push(name.clone());
        },
    }
    args.push(flag.clone());
    match extra {
        Some(arg) => {
            args.push(arg.clone());
        },
        None => {},
    }
    let invocation = Invocation { program: String::from_str("cargo"), args };
    assert(invocation@.args =~= invocation_for(
        example@,
        name@,
        manifest_path@,
        flag@,
        text_of(*extra),
    ).args);
    invocation
}

} // verus!
