use vstd::prelude::*;

use crate::fst::{Arc, VectorFst};
use crate::semiring::Semiring;
use crate::{Label, StateId};

verus! {

/// The side of an arc that a matcher looks up.
#[derive(PartialEq, Eq, Structural, Clone, Copy, Debug)]
pub enum MatchType {
    MatchInput,
    MatchOutput,
}

/// The label of `a` on the side `side`.
pub open spec fn side_label<W>(a: Arc<W>, side: MatchType) -> Label {
    match side {
        MatchType::MatchInput => a.ilabel,
        MatchType::MatchOutput => a.olabel,
    }
}

/// A label lookup over the arcs of the states of one automaton, on one side.
pub struct ArcMatcher<'a, W> {
    pub fst: &'a VectorFst<W>,
    pub match_type: MatchType,
}

impl<'a, W: Semiring> ArcMatcher<'a, W> {
    pub fn new(fst: &'a VectorFst<W>, match_type: MatchType) -> (r: Self)
        ensures
            *r.fst == *fst,
            r.match_type == match_type,
    {
        ArcMatcher { fst, match_type }
    }

    pub fn match_type(&self) -> (r: MatchType)
        ensures
            r == self.match_type,
    {
        self.match_type
    }

    /// The positions, in increasing order, of the arcs of `s` whose label on
    /// the matcher's side is `label`.
    pub fn find(&self, s: StateId, label: Label) -> (r: Vec<usize>)
        requires
            s < self.fst.states@.len(),
        ensures
            forall|k: int| 0 <= k < r@.len() ==> #[trigger] r@[k] < self.fst.states@[s as int].arcs@.len(),
            forall|k: int| 0 <= k < r@.len() ==> side_label(
                self.fst.states@[s as int].arcs@[#[trigger] r@[k] as int],
                self.match_type,
            ) == label,
            forall|k1: int, k2: int| 0 <= k1 < k2 < r@.len() ==> r@[k1] < r@[k2],
            forall|i: int|
                0 <= i < self.fst.states@[s as int].arcs@.len() && side_label(
                    #[trigger] self.fst.states@[s as int].arcs@[i],
                    self.match_type,
                ) == label ==> r@.contains(i as usize),
    {
        let arcs = &self.fst.states[s].arcs;
        let mut r: Vec<usize> = Vec::new();
        let mut i: usize = 0;
        while i < arcs.len()
            invariant
                0 <= i <= arcs@.len(),
                *arcs == self.fst.states@[s as int].arcs,
                forall|k: int| 0 <= k < r@.len() ==> #[trigger] r@[k] < i,
                forall|k: int| 0 <= k < r@.len() ==> side_label(arcs@[#[trigger] r@[k] as int], self.match_type) == label,
                forall|k1: int, k2: int| 0 <= k1 < k2 < r@.len() ==> r@[k1] < r@[k2],
                forall|j: int| 0 <= j < i && side_label(#[trigger] arcs@[j], self.match_type) == label ==> r@.contains(j as usize),
            decreases arcs@.len() - i,
        {
            let l = match self.match_type {
                MatchType::MatchInput => arcs[i].ilabel,
                MatchType::MatchOutput => arcs[i].olabel,
            };
            if l == label {
                let ghost prev = r@;
                r.push(i);
                proof {
                    assert forall|j: int| 0 <= j <= i && side_label(#[trigger] arcs@[j], self.match_type) == label implies r@.contains(j as usize) by {
                        if j < i {
                            let k = choose|k: int| 0 <= k < prev.len() && prev[k] == j as usize;
                            assert(r@[k] == j as usize);
                        } else {
                            assert(r@[prev.len() as int] == j as usize);
                        }
                    }
                }
            }
            i = i + 1;
        }
        r
    }
}

} // verus!
