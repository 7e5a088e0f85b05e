use vstd::prelude::*;

use crate::fst::Arc;
use crate::semiring::Semiring;
use crate::{Label, StateId, EPS_LABEL, NO_LABEL};

verus! {

/// The state of a composition filter at a product state: which sides may
/// still take an epsilon-only step before a real symbol is consumed.
#[derive(PartialEq, Eq, Structural, Clone, Copy, Debug)]
pub enum FilterState {
    BothMayEps,
    Only1MayEps,
    Only2MayEps,
    Blocked,
}

/// The filter's decision for the arc pair whose first arc has output label
/// `o1` and whose second arc has input label `i2`, at filter state `fs`.
/// `NO_LABEL` marks the side that does not move: `o1 == NO_LABEL` is an
/// epsilon-only step of side 2, `i2 == NO_LABEL` one of side 1.  Once one
/// side has taken an epsilon-only step, the other may not until a real
/// symbol is consumed; an epsilon-epsilon pair is a step of both sides and
/// comes only before any epsilon-only step.
pub open spec fn filter_step(fs: FilterState, o1: Label, i2: Label) -> FilterState {
    if fs == FilterState::Blocked {
        FilterState::Blocked
    } else if o1 == NO_LABEL && i2 == NO_LABEL {
        FilterState::Blocked
    } else if o1 == NO_LABEL {
        if i2 == EPS_LABEL && (fs == FilterState::BothMayEps || fs == FilterState::Only2MayEps) {
            FilterState::Only2MayEps
        } else {
            FilterState::Blocked
        }
    } else if i2 == NO_LABEL {
        if o1 == EPS_LABEL && (fs == FilterState::BothMayEps || fs == FilterState::Only1MayEps) {
            FilterState::Only1MayEps
        } else {
            FilterState::Blocked
        }
    } else if o1 != i2 {
        FilterState::Blocked
    } else if o1 == EPS_LABEL {
        if fs == FilterState::BothMayEps {
            FilterState::BothMayEps
        } else {
            FilterState::Blocked
        }
    } else {
        FilterState::BothMayEps
    }
}

/// The filter that sequences epsilon steps as `filter_step` says.
pub struct SequenceComposeFilter {
    pub s1: StateId,
    pub s2: StateId,
    pub fs: FilterState,
}

impl SequenceComposeFilter {
    pub fn new() -> (r: Self)
        ensures
            r.s1 == 0,
            r.s2 == 0,
            r.fs == FilterState::BothMayEps,
    {
        SequenceComposeFilter { s1: 0, s2: 0, fs: FilterState::BothMayEps }
    }

    /// The filter state of the start product state.
    pub fn start(&self) -> (r: FilterState)
        ensures
            r == FilterState::BothMayEps,
    {
        FilterState::BothMayEps
    }

    /// Moves the filter to the product state `(s1, s2, fs)`.
    pub fn set_state(&mut self, s1: StateId, s2: StateId, fs: FilterState)
        ensures
            final(self).s1 == s1,
            final(self).s2 == s2,
            final(self).fs == fs,
    {
        self.s1 = s1;
        self.s2 = s2;
        self.fs = fs;
    }

    /// The filter state after the arc pair, `Blocked` where the pair is not
    /// an admissible step.
    pub fn filter_arc<W: Semiring>(&self, arc1: &Arc<W>, arc2: &Arc<W>) -> (r: FilterState)
        ensures
            r == filter_step(self.fs, arc1.olabel, arc2.ilabel),
    {
        let o1 = arc1.olabel;
        let i2 = arc2.ilabel;
        if self.fs == FilterState::Blocked {
            FilterState::Blocked
        } else if o1 == NO_LABEL && i2 == NO_LABEL {
            FilterState::Blocked
        } else if o1 == NO_LABEL {
            if i2 == EPS_LABEL && (self.fs == FilterState::BothMayEps || self.fs
                == FilterState::Only2MayEps) {
                FilterState::Only2MayEps
            } else {
                FilterState::Blocked
            }
        } else if i2 == NO_LABEL {
            if o1 == EPS_LABEL && (self.fs == FilterState::BothMayEps || self.fs
                == FilterState::Only1MayEps) {
                FilterState::Only1MayEps
            } else {
                FilterState::Blocked
            }
        } else if o1 != i2 {
            FilterState::Blocked
        } else if o1 == EPS_LABEL {
            if self.fs == FilterState::BothMayEps {
                FilterState::BothMayEps
            } else {
                FilterState::Blocked
            }
        } else {
            FilterState::BothMayEps
        }
    }

    /// Final weights are counted once on every path through this filter, so
    /// they are left as they are.
    pub fn filter_final<W: Semiring>(&self, w1: &mut W, w2: &mut W)
        ensures
            *final(w1) == *old(w1),
            *final(w2) == *old(w2),
    {
    }
}

/// The labels of the arc pair after the multi-epsilon relabelling: where the
/// first arc is the one that does not move, its input label mirrors the
/// second arc's input label, and where the second does not move, its output
/// label mirrors the first arc's output label.
pub open spec fn multi_eps_arcs<W>(arc1: Arc<W>, arc2: Arc<W>, keep_multi_eps: bool) -> (Arc<W>, Arc<W>) {
    if keep_multi_eps {
        let a1 = if arc1.olabel == NO_LABEL {
            Arc { ilabel: arc2.ilabel, ..arc1 }
        } else {
            arc1
        };
        let a2 = if arc2.ilabel == NO_LABEL {
            Arc { olabel: a1.olabel, ..arc2 }
        } else {
            arc2
        };
        (a1, a2)
    } else {
        (arc1, arc2)
    }
}

/// A decorator of the sequence filter that, when `keep_multi_eps` is set,
/// relabels the side that does not move so that epsilon-only steps stay
/// distinguishable in the product.
pub struct MultiEpsFilter {
    pub filter: SequenceComposeFilter,
    pub keep_multi_eps: bool,
}

impl MultiEpsFilter {
    pub fn new(keep_multi_eps: bool) -> (r: Self)
        ensures
            r.filter == (SequenceComposeFilter { s1: 0, s2: 0, fs: FilterState::BothMayEps }),
            r.keep_multi_eps == keep_multi_eps,
    {
        MultiEpsFilter { filter: SequenceComposeFilter::new(), keep_multi_eps }
    }

    pub fn start(&self) -> (r: FilterState)
        ensures
            r == FilterState::BothMayEps,
    {
        self.filter.start()
    }

    pub fn set_state(&mut self, s1: StateId, s2: StateId, fs: FilterState)
        ensures
            final(self).filter.s1 == s1,
            final(self).filter.s2 == s2,
            final(self).filter.fs == fs,
            final(self).keep_multi_eps == old(self).keep_multi_eps,
    {
        self.filter.set_state(s1, s2, fs)
    }

    /// The base filter's decision, with the arcs relabelled as
    /// `multi_eps_arcs` says.
    pub fn filter_arc<W: Semiring>(&self, arc1: &mut Arc<W>, arc2: &mut Arc<W>) -> (r: FilterState)
        ensures
            r == filter_step(self.filter.fs, old(arc1).olabel, old(arc2).ilabel),
            (*final(arc1), *final(arc2)) == multi_eps_arcs(*old(arc1), *old(arc2), self.keep_multi_eps),
    {
        let fs = self.filter.filter_arc(arc1, arc2);
        if self.keep_multi_eps {
            if arc1.olabel == NO_LABEL {
                arc1.ilabel = arc2.ilabel;
            }
            if arc2.ilabel == NO_LABEL {
                arc2.olabel = arc1.olabel;
            }
        }
        fs
    }

    pub fn filter_final<W: Semiring>(&self, w1: &mut W, w2: &mut W)
        ensures
            *final(w1) == *old(w1),
            *final(w2) == *old(w2),
    {
        self.filter.filter_final(w1, w2)
    }
}

} // verus!
