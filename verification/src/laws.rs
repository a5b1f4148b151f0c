//! What holds of every run, proved from the contracts of planning and
//! sorting.

use crate::example::{names_of, LabelledView};
use crate::order::{
    lemma_name_le_antisymmetric, lemma_name_le_reflexive, lemma_name_le_total,
    lemma_name_le_transitive, name_le, names_sorted,
};
use crate::plan::{is_plan, is_plan_of_first, listing_of, step_for, OptionsView, StepView};
use crate::selection::{reached, selected};
use crate::sorting::is_stable_sort_of;
use vstd::prelude::*;
use vstd::relations::{sorted_by, total_ordering};
use vstd::seq_lib::{lemma_sorted_unique, to_multiset_build, to_multiset_insert, to_multiset_remove};

verus! {

/// The names of the steps' examples.
pub open spec fn step_names(steps: Seq<StepView>) -> Seq<Seq<char>> {
    steps.map_values(|s: StepView| s.name)
}

/// A collection of names has one ascending order: two sorted sequences that
/// hold the same names, each as often as the other, are equal.
pub proof fn lemma_sorted_names_are_unique(first: Seq<Seq<char>>, second: Seq<Seq<char>>)
    requires
        names_sorted(first),
        names_sorted(second),
        first.to_multiset() == second.to_multiset(),
    ensures
        first == second,
{
    let le = |a: Seq<char>, b: Seq<char>| name_le(a, b);
    assert forall|a: Seq<char>| #[trigger] le(a, a) by {
        lemma_name_le_reflexive(a);
    }
    assert forall|a: Seq<char>, b: Seq<char>| #[trigger] le(a, b) && #[trigger] le(b, a) implies a
        == b by {
        lemma_name_le_antisymmetric(a, b);
    }
    assert forall|a: Seq<char>, b: Seq<char>, c: Seq<char>| #[trigger]
        le(a, b) && #[trigger] le(b, c) implies le(a, c) by {
        lemma_name_le_transitive(a, b, c);
    }
    assert forall|a: Seq<char>, b: Seq<char>| #[trigger] le(a, b) || #[trigger] le(b, a) by {
        lemma_name_le_total(a, b);
    }
    assert(total_ordering(le));
    assert(sorted_by(first, le));
    assert(sorted_by(second, le));
    lemma_sorted_unique(first, second, le);
}

proof fn lemma_names_of_same_examples(first: Seq<LabelledView>, second: Seq<LabelledView>)
    requires
        first.to_multiset() == second.to_multiset(),
    ensures
        names_of(first).to_multiset() == names_of(second).to_multiset(),
    decreases first.len(),
{
    first.to_multiset_ensures();
    second.to_multiset_ensures();
    if first.len() == 0 {
        assert(second.to_multiset().len() == 0);
        assert(names_of(first) =~= names_of(second));
    } else {
        let item = first.last();
        assert(first.contains(item));
        assert(second.to_multiset().count(item) > 0);
        let at = choose|at: int| 0 <= at < second.len() && second[at] == item;
        let less = first.drop_last();
        let rest = second.remove(at);
        assert(first =~= less.push(item));
        to_multiset_build(less, item);
        to_multiset_remove(second, at);
        assert(less.to_multiset() =~= first.to_multiset().remove(item));
        lemma_names_of_same_examples(less, rest);
        assert(names_of(first) =~= names_of(less).push(item.name));
        assert(names_of(second) =~= names_of(rest).insert(at, item.name));
        to_multiset_build(names_of(less), item.name);
        to_multiset_insert(names_of(rest), at, item.name);
    }
}

/// The order of a run is reproducible: whatever the order in which the
/// examples were found, the same names are listed and run in the same
/// order.
pub proof fn lemma_order_is_reproducible(
    first: Seq<LabelledView>,
    found_first: Seq<LabelledView>,
    second: Seq<LabelledView>,
    found_second: Seq<LabelledView>,
)
    requires
        is_stable_sort_of(first, found_first),
        is_stable_sort_of(second, found_second),
        names_of(found_first).to_multiset() == names_of(found_second).to_multiset(),
    ensures
        names_of(first) == names_of(second),
{
    lemma_names_of_same_examples(first, found_first);
    lemma_names_of_same_examples(second, found_second);
    lemma_sorted_names_are_unique(names_of(first), names_of(second));
}

/// A list has exactly one plan.
pub proof fn lemma_plan_is_unique(
    first: Seq<StepView>,
    second: Seq<StepView>,
    list: Seq<LabelledView>,
    manifest_path: Seq<char>,
    options: OptionsView,
)
    requires
        is_plan(first, list, manifest_path, options),
        is_plan(second, list, manifest_path, options),
    ensures
        first == second,
{
    lemma_plan_of_first_is_unique(
        first,
        second,
        list,
        manifest_path,
        options,
        list.len() as int,
    );
}

proof fn lemma_plan_of_first_shrinks(
    steps: Seq<StepView>,
    list: Seq<LabelledView>,
    manifest_path: Seq<char>,
    options: OptionsView,
    count: int,
)
    requires
        count > 0,
        is_plan_of_first(steps, list, manifest_path, options, count),
    ensures
        selected(names_of(list), options.from, options.skip, count - 1) ==> {
            &&& steps.len() > 0
            &&& steps.last() == step_for(list, manifest_path, options, count - 1)
            &&& is_plan_of_first(steps.drop_last(), list, manifest_path, options, count - 1)
        },
        !selected(names_of(list), options.from, options.skip, count - 1) ==> is_plan_of_first(
            steps,
            list,
            manifest_path,
            options,
            count - 1,
        ),
{
    let names = names_of(list);
    if selected(names, options.from, options.skip, count - 1) {
        let k = choose|k: int| 0 <= k < steps.len() && (#[trigger] steps[k]).index == count - 1;
        if k < steps.len() - 1 {
            assert(steps[k].index < steps[steps.len() - 1].index);
        }
        let rest = steps.drop_last();
        assert forall|j: int| 0 <= j < rest.len() implies 0 <= (#[trigger] rest[j]).index < count
            - 1 by {
            assert(rest[j] == steps[j]);
            assert(steps[j].index < steps[steps.len() - 1].index);
        }
        assert forall|i: int|
            0 <= i < count - 1 && #[trigger] selected(
                names,
                options.from,
                options.skip,
                i,
            ) implies exists|j: int| 0 <= j < rest.len() && (#[trigger] rest[j]).index == i by {
            let j = choose|j: int| 0 <= j < steps.len() && (#[trigger] steps[j]).index == i;
            assert(rest[j] == steps[j]);
        }
    } else {
        assert forall|j: int| 0 <= j < steps.len() implies 0 <= (#[trigger] steps[j]).index < count
            - 1 by {
            assert(selected(names, options.from, options.skip, steps[j].index));
        }
    }
}

proof fn lemma_plan_of_first_is_unique(
    first: Seq<StepView>,
    second: Seq<StepView>,
    list: Seq<LabelledView>,
    manifest_path: Seq<char>,
    options: OptionsView,
    count: int,
)
    requires
        0 <= count,
        is_plan_of_first(first, list, manifest_path, options, count),
        is_plan_of_first(second, list, manifest_path, options, count),
    ensures
        first == second,
    decreases count,
{
    if count == 0 {
        if first.len() > 0 {
            assert(0 <= first[0].index < 0);
        }
        if second.len() > 0 {
            assert(0 <= second[0].index < 0);
        }
        assert(first =~= second);
    } else {
        lemma_plan_of_first_shrinks(first, list, manifest_path, options, count);
        lemma_plan_of_first_shrinks(second, list, manifest_path, options, count);
        if selected(names_of(list), options.from, options.skip, count - 1) {
            lemma_plan_of_first_is_unique(
                first.drop_last(),
                second.drop_last(),
                list,
                manifest_path,
                options,
                count - 1,
            );
            assert(first =~= first.drop_last().push(first.last()));
            assert(second =~= second.drop_last().push(second.last()));
        } else {
            lemma_plan_of_first_is_unique(
                first,
                second,
                list,
                manifest_path,
                options,
                count - 1,
            );
        }
    }
}

/// Examples are printed and run in ascending order of their names: where the
/// list is sorted, so are the names of the plan's steps, and each step comes
/// after the steps of the examples that the list holds before its own.
pub proof fn lemma_plan_follows_sorted_order(
    steps: Seq<StepView>,
    list: Seq<LabelledView>,
    manifest_path: Seq<char>,
    options: OptionsView,
)
    requires
        names_sorted(names_of(list)),
        is_plan(steps, list, manifest_path, options),
    ensures
        names_sorted(step_names(steps)),
        forall|k: int, l: int|
            0 <= k < l < steps.len() ==> (#[trigger] steps[k]).index < (#[trigger] steps[l]).index,
{
    let names = names_of(list);
    assert forall|k: int, l: int| 0 <= k < l < step_names(steps).len() implies name_le(
        step_names(steps)[k],
        step_names(steps)[l],
    ) by {
        assert(steps[k].index < steps[l].index);
        assert(steps[k].name == names[steps[k].index]);
        assert(steps[l].name == names[steps[l].index]);
    }
}

/// An example whose name is to be skipped is neither printed nor run,
/// wherever the run starts.
pub proof fn lemma_skipped_never_planned(
    steps: Seq<StepView>,
    list: Seq<LabelledView>,
    manifest_path: Seq<char>,
    options: OptionsView,
)
    requires
        is_plan(steps, list, manifest_path, options),
    ensures
        forall|k: int| 0 <= k < steps.len() ==> !options.skip.contains((#[trigger] steps[k]).name),
        forall|i: int, k: int|
            #![trigger list[i], steps[k]]
            0 <= i < list.len() && options.skip.contains(list[i].name) && 0 <= k < steps.len()
                ==> steps[k].index != i,
{
    let names = names_of(list);
    assert forall|k: int| 0 <= k < steps.len() implies !options.skip.contains(
        (#[trigger] steps[k]).name,
    ) by {
        assert(steps[k].name == names[steps[k].index]);
    }
    assert forall|i: int, k: int|
        #![trigger list[i], steps[k]]
        0 <= i < list.len() && options.skip.contains(list[i].name) && 0 <= k
            < steps.len() implies steps[k].index != i by {
        assert(names[i] == list[i].name);
    }
}

/// With a name to start from, no example that sorts before it is printed or
/// run.
pub proof fn lemma_nothing_before_start(
    steps: Seq<StepView>,
    list: Seq<LabelledView>,
    manifest_path: Seq<char>,
    options: OptionsView,
    start: Seq<char>,
)
    requires
        names_sorted(names_of(list)),
        is_plan(steps, list, manifest_path, options),
        options.from == Some(start),
    ensures
        forall|k: int| 0 <= k < steps.len() ==> name_le(start, (#[trigger] steps[k]).name),
{
    let names = names_of(list);
    assert forall|k: int| 0 <= k < steps.len() implies name_le(
        start,
        (#[trigger] steps[k]).name,
    ) by {
        let i = steps[k].index;
        assert(selected(names, options.from, options.skip, i));
        let j = choose|j: int| 0 <= j < i + 1 && j < names.len() && names[j] == start;
        assert(steps[k].name == names[i]);
        if j == i {
            lemma_name_le_reflexive(start);
        }
    }
}

/// With a name to start from that some example goes by, every example of
/// that name and every example that sorts after it has a step, unless its
/// name is to be skipped.
pub proof fn lemma_everything_from_start(
    steps: Seq<StepView>,
    list: Seq<LabelledView>,
    manifest_path: Seq<char>,
    options: OptionsView,
    start: Seq<char>,
    i: int,
)
    requires
        names_sorted(names_of(list)),
        is_plan(steps, list, manifest_path, options),
        options.from == Some(start),
        names_of(list).contains(start),
        0 <= i < list.len(),
        list[i].name == start || !name_le(list[i].name, start),
        !options.skip.contains(list[i].name),
    ensures
        exists|k: int|
            0 <= k < steps.len() && (#[trigger] steps[k]) == step_for(
                list,
                manifest_path,
                options,
                i,
            ),
{
    let names = names_of(list);
    assert(names[i] == list[i].name);
    let j = choose|j: int| 0 <= j < names.len() && names[j] == start;
    if list[i].name == start {
        assert(0 <= i < i + 1 && names[i] == start);
    } else {
        if i < j {
            assert(name_le(names[i], names[j]));
        }
        assert(0 <= j < i + 1 && names[j] == start);
    }
    assert(reached(names, options.from, i + 1));
    assert(selected(names, options.from, options.skip, i));
    let k = choose|k: int| 0 <= k < steps.len() && (#[trigger] steps[k]).index == i;
    assert(steps[k] == step_for(list, manifest_path, options, i));
}

/// Where nothing is to be run and names are to be printed, every selected
/// example has a step that prints its name, and no step invokes anything.
pub proof fn lemma_dry_run_prints_and_invokes_nothing(
    steps: Seq<StepView>,
    list: Seq<LabelledView>,
    manifest_path: Seq<char>,
    options: OptionsView,
)
    requires
        is_plan(steps, list, manifest_path, options),
        options.no_run,
        options.print,
    ensures
        forall|k: int|
            0 <= k < steps.len() ==> (#[trigger] steps[k]).invocation is None && steps[k].print,
        forall|i: int|
            0 <= i < list.len() && #[trigger] selected(
                names_of(list),
                options.from,
                options.skip,
                i,
            ) ==> exists|k: int|
                0 <= k < steps.len() && (#[trigger] steps[k]).index == i && steps[k].name
                    == list[i].name && steps[k].print,
{
    assert forall|i: int|
        0 <= i < list.len() && #[trigger] selected(
            names_of(list),
            options.from,
            options.skip,
            i,
        ) implies exists|k: int|
        0 <= k < steps.len() && (#[trigger] steps[k]).index == i && steps[k].name == list[i].name
            && steps[k].print by {
        let k = choose|k: int| 0 <= k < steps.len() && (#[trigger] steps[k]).index == i;
        assert(steps[k] == step_for(list, manifest_path, options, i));
    }
}

/// Listing prints the name of every example in the order of the list,
/// whatever the start, the names to skip and the other options are.
pub proof fn lemma_listing_ignores_selection(
    list: Seq<LabelledView>,
    options: OptionsView,
    others: OptionsView,
)
    requires
        options.list,
        others.list,
    ensures
        listing_of(list, options) == names_of(list),
        listing_of(list, options) == listing_of(list, others),
        names_sorted(names_of(list)) ==> names_sorted(listing_of(list, options)),
{
}

} // verus!
