//! Strings as the contracts see them: sequences of characters.

use vstd::prelude::*;

verus! {

/// The characters of an optional string.
pub open spec fn text_of(s: Option<String>) -> Option<Seq<char>> {
    match s {
        Some(s) => Some(s@),
        None => None,
    }
}

/// The characters of each string of a list.
pub open spec fn texts(list: Seq<String>) -> Seq<Seq<char>> {
    list.map_values(|s: String| s@)
}

/// The characters of each optional string of a list.
pub open spec fn optional_texts(list: Seq<Option<String>>) -> Seq<Option<Seq<char>>> {
    list.map_values(|s: Option<String>| text_of(s))
}

/// The items that are present, in their order.
pub open spec fn present<A>(items: Seq<Option<A>>) -> Seq<A>
    decreases items.len(),
{
    if items.len() == 0 {
        Seq::empty()
    } else {
        let before = present(items.drop_last());
        match items.last() {
            Some(item) => before.push(item),
            None => before,
        }
    }
}

/// Appending one item to a list appends it to the present items, if it is
/// present itself.
pub proof fn lemma_present_push<A>(items: Seq<Option<A>>, item: Option<A>)
    ensures
        present(items.push(item)) == match item {
            Some(a) => present(items).push(a),
            None => present(items),
        },
{
    assert(items.push(item).drop_last() =~= items);
}

} // verus!
