//! What one run prints and invokes, decided in full before anything is run.

use crate::command::{
    build_features_flag, build_invocation, features_flag, invocation_for, Invocation,
    InvocationView,
};
use crate::example::{labelled_views, names_of, Labelled, LabelledView};
use crate::selection::{is_skipped, lemma_phase_after, phase_after, selected, Phase};
use crate::text::{text_of, texts};
use vstd::prelude::*;

verus! {

/// What the user asked for.
#[derive(Debug, PartialEq, Eq)]
pub struct Options {
    /// Print the names of all examples before running any.
    pub list: bool,
    /// Print the name of each selected example before it runs.
    pub print: bool,
    /// Run nothing before the example of this name.
    pub from: Option<String>,
    /// Invoke nothing.
    pub no_run: bool,
    /// Never run the examples of these names.
    pub skip: Vec<String>,
    /// Features to enable in every invocation.
    pub features: Vec<String>,
    /// One more argument for every invocation.
    pub cargo_args: Option<String>,
}

/// The options over characters.
pub ghost struct OptionsView {
    pub list: bool,
    pub print: bool,
    pub from: Option<Seq<char>>,
    pub no_run: bool,
    pub skip: Seq<Seq<char>>,
    pub features: Seq<Seq<char>>,
    pub cargo_args: Option<Seq<char>>,
}

impl View for Options {
    type V = OptionsView;

    open spec fn view(&self) -> OptionsView {
        OptionsView {
            list: self.list,
            print: self.print,
            from: text_of(self.from),
            no_run: self.no_run,
            skip: texts(self.skip@),
            features: texts(self.features@),
            cargo_args: text_of(self.cargo_args),
        }
    }
}

/// What is done for one selected example: its name is printed if `print`
/// holds, then `invocation` is run if there is one.
#[derive(Debug, PartialEq, Eq)]
pub struct Step {
    /// The example's position in the sorted list.
    pub index: usize,
    pub name: String,
    pub print: bool,
    pub invocation: Option<Invocation>,
}

/// A step over characters.
pub ghost struct StepView {
    pub index: int,
    pub name: Seq<char>,
    pub print: bool,
    pub invocation: Option<InvocationView>,
}

impl View for Step {
    type V = StepView;

    open spec fn view(&self) -> StepView {
        StepView {
            index: self.index as int,
            name: self.name@,
            print: self.print,
            invocation: match self.invocation {
                Some(invocation) => Some(invocation@),
                None => None,
            },
        }
    }
}

/// The views of a list of steps.
pub open spec fn step_views(steps: Seq<Step>) -> Seq<StepView> {
    steps.map_values(|s: Step| s@)
}

/// The lines that listing prints: every name in order if asked for, and
/// nothing otherwise. No other option bears on it.
pub open spec fn listing_of(list: Seq<LabelledView>, options: OptionsView) -> Seq<Seq<char>> {
    if options.list {
        names_of(list)
    } else {
        Seq::empty()
    }
}

/// The step taken for the example of index `i`, where it is selected.
pub open spec fn step_for(
    list: Seq<LabelledView>,
    manifest_path: Seq<char>,
    options: OptionsView,
    i: int,
) -> StepView {
    StepView {
        index: i,
        name: list[i].name,
        print: options.print,
        invocation: if options.no_run {
            None
        } else {
            Some(
                invocation_for(
                    list[i].example,
                    list[i].name,
                    manifest_path,
                    features_flag(options.features),
                    options.cargo_args,
                ),
            )
        },
    }
}

/// `steps` is what is done for the first `count` examples of `list`: one step
/// for each selected example and no other, in the order of the list.
pub open spec fn is_plan_of_first(
    steps: Seq<StepView>,
    list: Seq<LabelledView>,
    manifest_path: Seq<char>,
    options: OptionsView,
    count: int,
) -> bool {
    &&& forall|k: int|
        0 <= k < steps.len() ==> {
            &&& 0 <= (#[trigger] steps[k]).index < count
            &&& selected(names_of(list), options.from, options.skip, steps[k].index)
            &&& steps[k] == step_for(list, manifest_path, options, steps[k].index)
        }
    &&& forall|k: int, l: int|
        0 <= k < l < steps.len() ==> (#[trigger] steps[k]).index < (#[trigger] steps[l]).index
    &&& forall|i: int|
        0 <= i < count && #[trigger] selected(names_of(list), options.from, options.skip, i)
            ==> exists|k: int| 0 <= k < steps.len() && (#[trigger] steps[k]).index == i
}

/// `steps` is what is done for `list`.
pub open spec fn is_plan(
    steps: Seq<StepView>,
    list: Seq<LabelledView>,
    manifest_path: Seq<char>,
    options: OptionsView,
) -> bool {
    is_plan_of_first(steps, list, manifest_path, options, list.len() as int)
}

/// The lines to print before any example runs.
pub fn listing(list: &Vec<Labelled>, options: &Options) -> (lines: Vec<String>)
    ensures
        texts(lines@) == listing_of(labelled_views(list@), options@),
{
    let mut lines: Vec<String> = Vec::new();
    if options.list {
        let mut i: usize = 0;
        while i < list.len()
            invariant
                i <= list.len(),
                texts(lines@) == names_of(labelled_views(list@)).subrange(0, i as int),
            decreases list.len() - i,
        {
            let ghost before = texts(lines@);
            lines.push(list[i].name.clone());
            assert(texts(lines@) =~= before.push(list@[i as int].name@));
            assert(names_of(labelled_views(list@)).subrange(0, i + 1) =~= before.push(
                list@[i as int].name@,
            ));
            i += 1;
        }
        assert(names_of(labelled_views(list@)).subrange(0, i as int) =~= names_of(
            labelled_views(list@),
        ));
    } else {
        assert(texts(lines@) =~= Seq::empty());
    }
    lines
}

/// Decides, for a list in running order, which examples are run and how.
///
/// Running begins at the first example named as `options.from`, or at once
/// where none is asked for; an example gets a step where running has begun
/// by then and its name is not in `options.skip`.
pub fn plan(list: &Vec<Labelled>, manifest_path: &String, options: &Options) -> (steps: Vec<Step>)
    ensures
        is_plan(step_views(steps@), labelled_views(list@), manifest_path@, options@),
{
    let flag = build_features_flag(&options.features);
    let ghost all = labelled_views(list@);
    let ghost names = names_of(all);
    let mut phase = Phase::initial(&options.from);
    let mut steps: Vec<Step> = Vec::new();
    let mut i: usize = 0;
    while i < list.len()
        invariant
            i <= list.len(),
            all == labelled_views(list@),
            names == names_of(all),
            flag@ == features_flag(options@.features),
            phase == phase_after(names, options@.from, i as int),
            is_plan_of_first(step_views(steps@), all, manifest_path@, options@, i as int),
        decreases list.len() - i,
    {
        let item = &list[i];
        let ghost before = step_views(steps@);
        phase = phase.advance(&options.from, &item.name);
        proof {
            assert(names[i as int] == item.name@);
            lemma_phase_after(names, options@.from, i + 1);
        }
        if !is_skipped(&options.skip, &item.name) && phase.is_active() {
            let invocation = if options.no_run {
                None
            } else {
                Some(
                    build_invocation(
                        &item.example,
                        &item.name,
                        manifest_path,
                        &flag,
                        &options.cargo_args,
                    ),
                )
            };
            let step = Step {
                index: i,
                name: item.name.clone(),
                print: options.print,
                invocation,
            };
            proof {
                assert(step@ == step_for(all, manifest_path@, options@, i as int));
            }
            steps.push(step);
            proof {
                let after = step_views(steps@);
                assert(after =~= before.push(step_for(all, manifest_path@, options@, i as int)));
                assert(after[before.len() as int].index == i);
                assert forall|j: int|
                    0 <= j < i + 1 && #[trigger] selected(
                        names,
                        options@.from,
                        options@.skip,
                        j,
                    ) implies exists|k: int|
                    0 <= k < after.len() && (#[trigger] after[k]).index == j by {
                    if j < i {
                        let k = choose|k: int|
                            0 <= k < before.len() && (#[trigger] before[k]).index == j;
                        assert(after[k].index == j);
                    }
                }
            }
        } else {
            proof {
                assert(!selected(names, options@.from, options@.skip, i as int));
            }
        }
        i += 1;
    }
    steps
}

} // verus!
