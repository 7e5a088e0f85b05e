use vstd::prelude::*;

use crate::fst::Arc;
use crate::semiring::Semiring;
use crate::Label;

verus! {

/// What an arc mapper asks of the final weights.
#[derive(PartialEq, Eq, Structural, Clone, Copy, Debug)]
pub enum MapFinalAction {
    /// Final weights are mapped in place; no super-final state is needed.
    MapNoSuperfinal,
    /// A super-final state may be added where a final weight maps to an arc.
    MapAllowSuperfinal,
    /// A super-final state is always added.
    MapRequireSuperfinal,
}

/// The final weight of a state seen as an arc to a super-final state.
pub struct FinalArc<W> {
    pub ilabel: Label,
    pub olabel: Label,
    pub weight: W,
}

/// Mapper that adds a constant to all weights with the semiring's `plus`.
pub struct PlusMapper<W> {
    pub to_add: W,
}

impl<W: Semiring> PlusMapper<W> {
    pub fn new(value: W) -> (r: Self)
        ensures
            r.to_add == value,
    {
        PlusMapper { to_add: value }
    }

    pub fn map_weight(&self, weight: &mut W)
        ensures
            *final(weight) == W::plus_spec(*old(weight), self.to_add),
    {
        weight.plus_assign(&self.to_add);
    }

    /// Maps the weight of `arc`; labels and target stay.
    pub fn arc_map(&mut self, arc: &mut Arc<W>)
        ensures
            *final(arc) == (Arc { weight: W::plus_spec(old(arc).weight, old(self).to_add), ..*old(arc) }),
            final(self).to_add == old(self).to_add,
    {
        self.map_weight(&mut arc.weight)
    }

    /// Maps the weight of a final arc; its labels stay.
    pub fn final_arc_map(&mut self, final_arc: &mut FinalArc<W>)
        ensures
            *final(final_arc) == (FinalArc {
                weight: W::plus_spec(old(final_arc).weight, old(self).to_add),
                ..*old(final_arc)
            }),
            final(self).to_add == old(self).to_add,
    {
        self.map_weight(&mut final_arc.weight)
    }

    pub fn final_action(&self) -> (r: MapFinalAction)
        ensures
            r == MapFinalAction::MapNoSuperfinal,
    {
        MapFinalAction::MapNoSuperfinal
    }
}

} // verus!
