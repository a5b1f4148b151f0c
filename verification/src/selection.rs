//! Which examples of a sorted list are run: the name to start from and the
//! names to skip.

use crate::text::{text_of, texts};
use vstd::prelude::*;

verus! {

/// Whether running has begun. A run that is active stays active.
#[derive(Clone, Copy, Debug, PartialEq, Eq, Structural)]
pub enum Phase {
    /// The example to start from has not been reached yet.
    Waiting,
    /// Examples are run from here on.
    Active,
}

impl Phase {
    /// The phase before the first example: active unless a start is asked for.
    pub open spec fn start(from: Option<Seq<char>>) -> Phase {
        if from is None {
            Phase::Active
        } else {
            Phase::Waiting
        }
    }

    /// The phase at the example named `name`: active where that is the name
    /// to start from, and otherwise as before.
    pub open spec fn next(self, from: Option<Seq<char>>, name: Seq<char>) -> Phase {
        if from == Some(name) {
            Phase::Active
        } else {
            self
        }
    }

    /// The phase before the first example.
    pub fn initial(from: &Option<String>) -> (phase: Phase)
        ensures
            phase == Phase::start(text_of(*from)),
    {
        match from {
            Some(_) => Phase::Waiting,
            None => Phase::Active,
        }
    }

    /// The phase at the example named `name`.
    pub fn advance(self, from: &Option<String>, name: &String) -> (phase: Phase)
        ensures
            phase == self.next(text_of(*from), name@),
    {
        match from {
            Some(start) => {
                if *start == *name {
                    Phase::Active
                } else {
                    self
                }
            },
            None => self,
        }
    }

    /// Whether examples are run at this phase.
    pub fn is_active(self) -> (r: bool)
        ensures
            r == (self is Active),
    {
        match self {
            Phase::Active => true,
            Phase::Waiting => false,
        }
    }
}

/// The phase at the example of index `count - 1`, after the first `count`
/// names have passed it in order.
pub open spec fn phase_after(names: Seq<Seq<char>>, from: Option<Seq<char>>, count: int) -> Phase
    decreases count,
{
    if count <= 0 {
        Phase::start(from)
    } else {
        phase_after(names, from, count - 1).next(from, names[count - 1])
    }
}

/// Running has begun within the first `count` names: no start is asked for,
/// or one of those names is the name to start from.
pub open spec fn reached(names: Seq<Seq<char>>, from: Option<Seq<char>>, count: int) -> bool {
    match from {
        None => true,
        Some(start) => exists|j: int| 0 <= j < count && j < names.len() && names[j] == start,
    }
}

/// The example of index `i` is run: running has begun by then, and its name
/// is not among those to skip.
pub open spec fn selected(
    names: Seq<Seq<char>>,
    from: Option<Seq<char>>,
    skip: Seq<Seq<char>>,
    i: int,
) -> bool {
    reached(names, from, i + 1) && !skip.contains(names[i])
}

/// The phase is active after `count` names exactly when running has begun
/// within them.
pub proof fn lemma_phase_after(names: Seq<Seq<char>>, from: Option<Seq<char>>, count: int)
    requires
        0 <= count <= names.len(),
    ensures
        phase_after(names, from, count) is Active <==> reached(names, from, count),
    decreases count,
{
    if count > 0 {
        lemma_phase_after(names, from, count - 1);
        if reached(names, from, count - 1) && from is Some {
            let j = choose|j: int| 0 <= j < count - 1 && j < names.len() && names[j] == from->0;
            assert(0 <= j < count && names[j] == from->0);
        }
        if from == Some(names[count - 1]) {
            assert(0 <= count - 1 < count && names[count - 1] == from->0);
        }
    }
}

/// Whether `name` is among the names to skip.
pub fn is_skipped(skip: &Vec<String>, name: &String) -> (r: bool)
    ensures
        r == texts(skip@).contains(name@),
{
    let mut i: usize = 0;
    while i < skip.len()
        invariant
            i <= skip.len(),
            forall|j: int| 0 <= j < i ==> texts(skip@)[j] != name@,
        decreases skip.len() - i,
    {
        if skip[i] == *name {
            assert(texts(skip@)[i as int] == name@);
            return true;
        }
        i += 1;
    }
    false
}

} // verus!
