use vstd::prelude::*;

pub mod compose;
pub mod compose_filter;
pub mod fst;
pub mod matcher;
pub mod parsers;
pub mod plus_mapper;
pub mod semiring;
pub mod state_table;
pub mod string_factor;
pub mod utils;

verus! {

/// A label of an arc; `0` is reserved for epsilon.
pub type Label = usize;

/// A dense, zero-based state id.
pub type StateId = usize;

/// The epsilon label: no symbol is consumed on that side of an arc.
pub const EPS_LABEL: Label = 0;

/// A label reserved for composition: it marks the side of a step that does
/// not move, and the arcs of an automaton are not meant to carry it.
pub const NO_LABEL: Label = usize::MAX;

} // verus!
