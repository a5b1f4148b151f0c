//! Putting examples in running order: ascending by name, examples of one
//! name in the order they were found.

use crate::example::{labelled_views, names_of, Labelled, LabelledView};
use crate::order::{
    lemma_name_le_reflexive, lemma_name_le_total, lemma_name_le_transitive, name_le,
    name_precedes, names_sorted,
};
use vstd::prelude::*;
use vstd::seq_lib::to_multiset_insert;

verus! {

/// The test for going by the name `name`.
pub open spec fn named(name: Seq<char>) -> spec_fn(LabelledView) -> bool {
    |l: LabelledView| l.name == name
}

/// `sorted` holds the examples of `list`, each as often as `list` does, in
/// ascending order of their names, and those of one name in the order in
/// which `list` holds them.
pub open spec fn is_stable_sort_of(sorted: Seq<LabelledView>, list: Seq<LabelledView>) -> bool {
    &&& names_sorted(names_of(sorted))
    &&& sorted.to_multiset() == list.to_multiset()
    &&& forall|name: Seq<char>| #[trigger] sorted.filter(named(name)) == list.filter(named(name))
}

proof fn lemma_filter_nothing<A>(s: Seq<A>, pred: spec_fn(A) -> bool)
    requires
        forall|i: int| 0 <= i < s.len() ==> !pred(s[i]),
    ensures
        s.filter(pred) == Seq::<A>::empty(),
    decreases s.len(),
{
    reveal(Seq::filter);
    if s.len() > 0 {
        lemma_filter_nothing(s.drop_last(), pred);
    }
}

proof fn lemma_filter_one<A>(x: A, pred: spec_fn(A) -> bool)
    ensures
        seq![x].filter(pred) == if pred(x) {
            seq![x]
        } else {
            Seq::<A>::empty()
        },
{
    reveal(Seq::filter);
    assert(seq![x].drop_last() =~= Seq::<A>::empty());
    assert(Seq::<A>::empty().filter(pred) =~= Seq::<A>::empty());
    assert(Seq::<A>::empty().push(x) =~= seq![x]);
}

/// Putting an example in front of a list, and into its sorted form before
/// the first example that it does not come after, keeps the one the stable
/// sort of the other.
proof fn lemma_insert_keeps_order(
    sorted: Seq<LabelledView>,
    list: Seq<LabelledView>,
    item: LabelledView,
    at: int,
)
    requires
        is_stable_sort_of(sorted, list),
        0 <= at <= sorted.len(),
        forall|i: int| 0 <= i < at ==> !name_le(item.name, #[trigger] sorted[i].name),
        at < sorted.len() ==> name_le(item.name, sorted[at].name),
    ensures
        is_stable_sort_of(sorted.insert(at, item), list.insert(0, item)),
{
    let after = sorted.insert(at, item);
    let names = names_of(after);
    assert forall|i: int, j: int| 0 <= i < j < names.len() implies name_le(
        names[i],
        names[j],
    ) by {
        let a = if i < at {
            sorted[i]
        } else if i == at {
            item
        } else {
            sorted[i - 1]
        };
        let b = if j < at {
            sorted[j]
        } else if j == at {
            item
        } else {
            sorted[j - 1]
        };
        assert(names[i] == a.name && names[j] == b.name);
        if j < at {
            assert(names_of(sorted)[i] == a.name && names_of(sorted)[j] == b.name);
        } else if j == at {
            lemma_name_le_total(item.name, sorted[i].name);
        } else if i < at {
            assert(names_of(sorted)[i] == a.name && names_of(sorted)[j - 1] == b.name);
        } else if i == at {
            if j - 1 > at {
                assert(names_of(sorted)[at] == sorted[at].name && names_of(sorted)[j - 1]
                    == b.name);
                lemma_name_le_transitive(item.name, sorted[at].name, b.name);
            }
        } else {
            assert(names_of(sorted)[i - 1] == a.name && names_of(sorted)[j - 1] == b.name);
        }
    }
    to_multiset_insert(sorted, at, item);
    to_multiset_insert(list, 0, item);
    assert forall|name: Seq<char>| #[trigger]
        after.filter(named(name)) == list.insert(0, item).filter(named(name)) by {
        let pred = named(name);
        let head = sorted.subrange(0, at);
        let tail = sorted.subrange(at, sorted.len() as int);
        assert(sorted =~= head + tail);
        assert(after =~= head + seq![item] + tail);
        assert(list.insert(0, item) =~= seq![item] + list);
        Seq::filter_distributes_over_add(head, tail, pred);
        Seq::filter_distributes_over_add(head, seq![item], pred);
        Seq::filter_distributes_over_add(head + seq![item], tail, pred);
        Seq::filter_distributes_over_add(seq![item], list, pred);
        lemma_filter_one(item, pred);
        assert(sorted.filter(pred) == list.filter(pred));
        if pred(item) {
            assert forall|i: int| 0 <= i < head.len() implies !pred(head[i]) by {
                lemma_name_le_reflexive(item.name);
                assert(!name_le(item.name, sorted[i].name));
            }
            lemma_filter_nothing(head, pred);
            assert(after.filter(pred) =~= seq![item] + tail.filter(pred));
            assert(sorted.filter(pred) =~= tail.filter(pred));
        } else {
            assert(after.filter(pred) =~= head.filter(pred) + tail.filter(pred));
            assert(list.insert(0, item).filter(pred) =~= list.filter(pred));
        }
    }
}

/// Where an example named `name` goes into `sorted`: behind every example
/// that comes before it by name, and before the rest.
fn insertion_point(sorted: &Vec<Labelled>, name: &String) -> (at: usize)
    ensures
        at <= sorted.len(),
        forall|i: int| 0 <= i < at ==> !name_le(name@, #[trigger] sorted@[i].name@),
        at < sorted.len() ==> name_le(name@, sorted@[at as int].name@),
{
    let mut at: usize = 0;
    while at < sorted.len() && !name_precedes(name.as_str(), sorted[at].name.as_str())
        invariant
            at <= sorted.len(),
            forall|i: int| 0 <= i < at ==> !name_le(name@, #[trigger] sorted@[i].name@),
        decreases sorted.len() - at,
    {
        at += 1;
    }
    at
}

/// Sorts `list` by name. The sort is stable: examples of one name stay in
/// the order in which `list` holds them.
pub fn sort_by_name(list: Vec<Labelled>) -> (sorted: Vec<Labelled>)
    ensures
        is_stable_sort_of(labelled_views(sorted@), labelled_views(list@)),
{
    let ghost input = labelled_views(list@);
    let mut rest = list;
    let mut sorted: Vec<Labelled> = Vec::new();
    proof {
        assert(input.subrange(rest.len() as int, input.len() as int) =~= Seq::empty());
        assert(labelled_views(sorted@) =~= Seq::empty());
    }
    while rest.len() > 0
        invariant
            rest.len() <= input.len(),
            labelled_views(rest@) == input.subrange(0, rest.len() as int),
            is_stable_sort_of(
                labelled_views(sorted@),
                input.subrange(rest.len() as int, input.len() as int),
            ),
        decreases rest.len(),
    {
        let ghost done = labelled_views(sorted@);
        let ghost tail = input.subrange(rest.len() as int, input.len() as int);
        let ghost left = rest.len() as int;
        let ghost last = labelled_views(rest@)[left - 1];
        let item = rest.pop().unwrap();
        let at = insertion_point(&sorted, &item.name);
        proof {
            assert(item@ == last);
            assert forall|i: int| 0 <= i < at implies !name_le(
                item@.name,
                #[trigger] done[i].name,
            ) by {
                assert(done[i].name == sorted@[i].name@);
            }
            lemma_insert_keeps_order(done, tail, item@, at as int);
            assert(input.subrange(left - 1, input.len() as int) =~= tail.insert(0, item@));
        }
        let ghost view = item@;
        sorted.insert(at, item);
        proof {
            assert(labelled_views(sorted@) =~= done.insert(at as int, view));
            assert(labelled_views(rest@) =~= input.subrange(0, left - 1));
        }
    }
    proof {
        assert(input.subrange(0, input.len() as int) =~= input);
    }
    sorted
}

} // verus!
