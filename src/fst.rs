use vstd::prelude::*;

use crate::semiring::Semiring;
use crate::utils::{is_linear_fst, linear_fst, max_len};
use crate::{Label, StateId, NO_LABEL};

verus! {

/// A transition: input label, output label, weight and target state.
pub struct Arc<W> {
    pub ilabel: Label,
    pub olabel: Label,
    pub weight: W,
    pub nextstate: StateId,
}

impl<W: Semiring> Arc<W> {
    pub fn new(ilabel: Label, olabel: Label, weight: W, nextstate: StateId) -> (r: Self)
        ensures
            r == (Arc { ilabel, olabel, weight, nextstate }),
    {
        Arc { ilabel, olabel, weight, nextstate }
    }

    pub fn duplicate(&self) -> (r: Self)
        ensures
            r == *self,
    {
        Arc {
            ilabel: self.ilabel,
            olabel: self.olabel,
            weight: self.weight.duplicate(),
            nextstate: self.nextstate,
        }
    }
}

/// The outgoing arcs of a state, in insertion order, and its final weight
/// (`None` for a state that does not accept).
pub struct FstState<W> {
    pub arcs: Vec<Arc<W>>,
    pub final_weight: Option<W>,
}

/// The errors of the automaton operations.
#[derive(PartialEq, Eq, Structural, Clone, Copy, Debug)]
pub enum FstError {
    /// The operation names a state that does not exist.
    InvalidState,
}

/// An automaton held in memory: its states, each with its arcs, and an
/// optional start state.
pub struct VectorFst<W> {
    pub states: Vec<FstState<W>>,
    pub start_state: Option<StateId>,
}

/// The arc `a` with its target moved up by `offset`.
pub open spec fn shift_arc<W>(a: Arc<W>, offset: int) -> Arc<W> {
    Arc { nextstate: (a.nextstate + offset) as StateId, ..a }
}

impl<W: Semiring> VectorFst<W> {
    /// Every arc target and the start state name existing states.
    pub open spec fn wf(&self) -> bool {
        &&& (self.start_state matches Some(s) ==> s < self.states@.len())
        &&& forall|s: int, i: int|
            0 <= s < self.states@.len() && 0 <= i < self.states@[s].arcs@.len()
                ==> #[trigger] self.states@[s].arcs@[i].nextstate < self.states@.len()
    }

    /// No arc carries `NO_LABEL`, the label that composition reserves for
    /// the side of a step that does not move.
    pub open spec fn no_reserved_labels(&self) -> bool {
        forall|s: int, i: int|
            0 <= s < self.states@.len() && 0 <= i < self.states@[s].arcs@.len() ==> {
                &&& (#[trigger] self.states@[s].arcs@[i]).ilabel != NO_LABEL
                &&& self.states@[s].arcs@[i].olabel != NO_LABEL
            }
    }

    pub fn new() -> (r: Self)
        ensures
            r.wf(),
            r.states@.len() == 0,
            r.start_state is None,
    {
        VectorFst { states: Vec::new(), start_state: None }
    }

    /// Adds a state with no arcs that is not final, and returns its id.
    pub fn add_state(&mut self) -> (r: StateId)
        requires
            old(self).states@.len() < usize::MAX,
        ensures
            r == old(self).states@.len(),
            final(self).states@.len() == old(self).states@.len() + 1,
            forall|s: int| 0 <= s < r ==> #[trigger] final(self).states@[s] == old(self).states@[s],
            final(self).states@[r as int].arcs@.len() == 0,
            final(self).states@[r as int].final_weight is None,
            final(self).start_state == old(self).start_state,
            old(self).wf() ==> final(self).wf(),
    {
        let r = self.states.len();
        self.states.push(FstState { arcs: Vec::new(), final_weight: None });
        proof {
            assert forall|s: int, i: int|
                0 <= s < self.states@.len() && 0 <= i < self.states@[s].arcs@.len()
                    && old(self).wf() implies #[trigger] self.states@[s].arcs@[i].nextstate
                < self.states@.len() by {
                if s < r {
                    assert(self.states@[s] == old(self).states@[s]);
                    assert(old(self).states@[s].arcs@[i].nextstate < r);
                }
            }
        }
        r
    }

    /// Makes `s` the start state; fails where `s` does not exist.
    pub fn set_start(&mut self, s: StateId) -> (r: Result<(), FstError>)
        ensures
            r is Err <==> s >= old(self).states@.len(),
            r is Err ==> r == Err::<(), FstError>(FstError::InvalidState),
            r is Ok ==> final(self).start_state == Some(s),
            r is Err ==> final(self).start_state == old(self).start_state,
            final(self).states == old(self).states,
            old(self).wf() ==> final(self).wf(),
    {
        if s >= self.states.len() {
            return Err(FstError::InvalidState);
        }
        self.start_state = Some(s);
        Ok(())
    }

    /// Sets the final weight of `s`; fails where `s` does not exist.
    pub fn set_final(&mut self, s: StateId, weight: W) -> (r: Result<(), FstError>)
        ensures
            r is Err <==> s >= old(self).states@.len(),
            r is Err ==> r == Err::<(), FstError>(FstError::InvalidState),
            r is Err ==> final(self).states@ == old(self).states@,
            r is Ok ==> final(self).states@[s as int].final_weight == Some(weight),
            r is Ok ==> final(self).states@[s as int].arcs@ == old(self).states@[s as int].arcs@,
            final(self).states@.len() == old(self).states@.len(),
            forall|t: int| 0 <= t < old(self).states@.len() && t != s ==> #[trigger] final(self).states@[t] == old(self).states@[t],
            final(self).start_state == old(self).start_state,
            old(self).wf() ==> final(self).wf(),
    {
        if s >= self.states.len() {
            return Err(FstError::InvalidState);
        }
        self.states[s].final_weight = Some(weight);
        proof {
            assert forall|t: int, i: int|
                0 <= t < self.states@.len() && 0 <= i < self.states@[t].arcs@.len()
                    && old(self).wf() implies #[trigger] self.states@[t].arcs@[i].nextstate
                < self.states@.len() by {
                assert(self.states@[t].arcs@ == old(self).states@[t].arcs@);
                assert(old(self).states@[t].arcs@[i].nextstate < old(self).states@.len());
            }
        }
        Ok(())
    }

    /// Appends `arc` to the arcs of `s`; fails where `s` or the arc's target
    /// does not exist.
    pub fn add_arc(&mut self, s: StateId, arc: Arc<W>) -> (r: Result<(), FstError>)
        ensures
            r is Err <==> (s >= old(self).states@.len() || arc.nextstate >= old(self).states@.len()),
            r is Err ==> r == Err::<(), FstError>(FstError::InvalidState),
            r is Err ==> final(self).states@ == old(self).states@,
            r is Ok ==> final(self).states@[s as int].arcs@ == old(self).states@[s as int].arcs@.push(arc),
            r is Ok ==> final(self).states@[s as int].final_weight == old(self).states@[s as int].final_weight,
            final(self).states@.len() == old(self).states@.len(),
            forall|t: int| 0 <= t < old(self).states@.len() && t != s ==> #[trigger] final(self).states@[t] == old(self).states@[t],
            final(self).start_state == old(self).start_state,
            old(self).wf() ==> final(self).wf(),
    {
        if s >= self.states.len() || arc.nextstate >= self.states.len() {
            return Err(FstError::InvalidState);
        }
        self.states[s].arcs.push(arc);
        proof {
            assert forall|t: int, i: int|
                0 <= t < self.states@.len() && 0 <= i < self.states@[t].arcs@.len()
                    && old(self).wf() implies #[trigger] self.states@[t].arcs@[i].nextstate
                < self.states@.len() by {
                if t != s || i < old(self).states@[t].arcs@.len() {
                    assert(self.states@[t].arcs@[i] == old(self).states@[t].arcs@[i]);
                    assert(old(self).states@[t].arcs@[i].nextstate < old(self).states@.len());
                }
            }
        }
        Ok(())
    }
    /// Appends a copy of the states and arcs of `other` (final weights are not
    /// copied) and returns, for each state of `other`, the id of its copy.
    pub fn add_fst(&mut self, other: &VectorFst<W>) -> (r: Vec<StateId>)
        requires
            old(self).wf(),
            other.wf(),
            old(self).states@.len() + other.states@.len() < usize::MAX,
        ensures
            final(self).wf(),
            r@.len() == other.states@.len(),
            forall|i: int| 0 <= i < r@.len() ==> #[trigger] r@[i] == old(self).states@.len() + i,
            final(self).states@.len() == old(self).states@.len() + other.states@.len(),
            forall|t: int| 0 <= t < old(self).states@.len() ==> #[trigger] final(self).states@[t] == old(self).states@[t],
            forall|i: int| 0 <= i < other.states@.len() ==> #[trigger] final(self).states@[old(self).states@.len() + i].arcs@
                == shifted_arcs(other.states@[i].arcs@, old(self).states@.len() as int),
            forall|i: int| 0 <= i < other.states@.len() ==> #[trigger] final(self).states@[old(self).states@.len() + i].final_weight is None,
            final(self).start_state == old(self).start_state,
    {
        let offset = self.states.len();
        let n = other.states.len();
        let mut mapping: Vec<StateId> = Vec::new();
        let mut i: usize = 0;
        while i < n
            invariant
                0 <= i <= n,
                n == other.states@.len(),
                offset == old(self).states@.len(),
                offset + n < usize::MAX,
                self.wf(),
                self.states@.len() == offset + i,
                mapping@.len() == i,
                forall|k: int| 0 <= k < i ==> #[trigger] mapping@[k] == offset + k,
                forall|t: int| 0 <= t < offset ==> #[trigger] self.states@[t] == old(self).states@[t],
                forall|t: int| offset <= t < offset + i ==> #[trigger] self.states@[t].arcs@.len() == 0,
                forall|t: int| offset <= t < offset + i ==> #[trigger] self.states@[t].final_weight is None,
                self.start_state == old(self).start_state,
            decreases n - i,
        {
            let ghost prev = self.states@;
            let id = self.add_state();
            proof {
                assert forall|t: int| 0 <= t < offset + i implies #[trigger] self.states@[t] == prev[t] by {}
            }
            mapping.push(id);
            i = i + 1;
        }
        let mut i: usize = 0;
        while i < n
            invariant
                0 <= i <= n,
                n == other.states@.len(),
                other.wf(),
                offset == old(self).states@.len(),
                offset + n < usize::MAX,
                self.wf(),
                self.states@.len() == offset + n,
                forall|t: int| 0 <= t < offset ==> #[trigger] self.states@[t] == old(self).states@[t],
                forall|k: int| 0 <= k < i ==> #[trigger] self.states@[offset + k].arcs@
                    == shifted_arcs(other.states@[k].arcs@, offset as int),
                forall|t: int| offset + i <= t < offset + n ==> #[trigger] self.states@[t].arcs@.len() == 0,
                forall|t: int| offset <= t < offset + n ==> #[trigger] self.states@[t].final_weight is None,
                self.start_state == old(self).start_state,
            decreases n - i,
        {
            let m = other.states[i].arcs.len();
            let mut j: usize = 0;
            while j < m
                invariant
                    0 <= i < n,
                    0 <= j <= m,
                    m == other.states@[i as int].arcs@.len(),
                    n == other.states@.len(),
                    other.wf(),
                    offset == old(self).states@.len(),
                    offset + n < usize::MAX,
                    self.wf(),
                    self.states@.len() == offset + n,
                    forall|t: int| 0 <= t < offset ==> #[trigger] self.states@[t] == old(self).states@[t],
                    forall|k: int| 0 <= k < i ==> #[trigger] self.states@[offset + k].arcs@
                        == shifted_arcs(other.states@[k].arcs@, offset as int),
                    self.states@[offset + i].arcs@ == shifted_arcs(other.states@[i as int].arcs@, offset as int).take(j as int),
                    forall|t: int| offset + i < t < offset + n ==> #[trigger] self.states@[t].arcs@.len() == 0,
                    forall|t: int| offset <= t < offset + n ==> #[trigger] self.states@[t].final_weight is None,
                    self.start_state == old(self).start_state,
                decreases m - j,
            {
                let a = &other.states[i].arcs[j];
                proof {
                    assert(other.states@[i as int].arcs@[j as int] == *a);
                    assert(a.nextstate < n);
                }
                let shifted = Arc {
                    ilabel: a.ilabel,
                    olabel: a.olabel,
                    weight: a.weight.duplicate(),
                    nextstate: a.nextstate + offset,
                };
                let ghost prev = self.states@;
                let res = self.add_arc(offset + i, shifted);
                proof {
                    assert forall|t: int| 0 <= t < offset + n && t != offset + i implies #[trigger] self.states@[t] == prev[t] by {}
                    assert(res is Ok);
                    assert(self.states@[offset + i].arcs@ =~= shifted_arcs(other.states@[i as int].arcs@, offset as int).take(j + 1));
                }
                j = j + 1;
            }
            proof {
                assert(self.states@[offset + i].arcs@ =~= shifted_arcs(other.states@[i as int].arcs@, offset as int));
            }
            i = i + 1;
        }
        mapping
    }

    /// Deletes state `s`: its arcs and the arcs into it go, and every state
    /// after it moves down by one, in the arcs' targets and in the start
    /// state.  The start state is unset where it was `s`.  Fails where `s`
    /// does not exist.
    pub fn del_state(&mut self, s: StateId) -> (r: Result<(), FstError>)
        requires
            old(self).wf(),
        ensures
            r is Err <==> s >= old(self).states@.len(),
            r is Err ==> r == Err::<(), FstError>(FstError::InvalidState) && *final(self) == *old(self),
            final(self).wf(),
            r is Ok ==> final(self).states@.len() == old(self).states@.len() - 1,
            r is Ok ==> forall|t: int| 0 <= t < final(self).states@.len() ==> {
                let o = if t < s { t } else { t + 1 };
                &&& (#[trigger] final(self).states@[t]).final_weight == old(self).states@[o].final_weight
                &&& final(self).states@[t].arcs@ == renumbered_arcs(old(self).states@[o].arcs@, s)
            },
            r is Ok ==> final(self).start_state == match old(self).start_state {
                Some(x) => if x == s {
                    None
                } else if x < s {
                    Some(x)
                } else {
                    Some((x - 1) as StateId)
                },
                None => None,
            },
    {
        let n = self.states.len();
        if s >= n {
            return Err(FstError::InvalidState);
        }
        let mut states: Vec<FstState<W>> = Vec::new();
        let mut t: usize = 0;
        while t < n
            invariant
                0 <= t <= n,
                n == self.states@.len(),
                s < n,
                *self == *old(self),
                self.wf(),
                states@.len() == if t <= s { t as int } else { t - 1 },
                forall|u: int| 0 <= u < states@.len() ==> {
                    let o = if u < s { u } else { u + 1 };
                    &&& (#[trigger] states@[u]).final_weight == self.states@[o].final_weight
                    &&& states@[u].arcs@ == renumbered_arcs(self.states@[o].arcs@, s)
                },
                forall|u: int, i: int|
                    0 <= u < states@.len() && 0 <= i < states@[u].arcs@.len()
                        ==> #[trigger] states@[u].arcs@[i].nextstate < n - 1,
            decreases n - t,
        {
            if t != s {
                let old_arcs = &self.states[t].arcs;
                let mut arcs: Vec<Arc<W>> = Vec::new();
                let mut i: usize = 0;
                while i < old_arcs.len()
                    invariant
                        0 <= i <= old_arcs@.len(),
                        t < n,
                        n == self.states@.len(),
                        s < n,
                        self.wf(),
                        *old_arcs == self.states@[t as int].arcs,
                        arcs@ == renumbered_arcs(old_arcs@.take(i as int), s),
                        forall|k: int| 0 <= k < arcs@.len() ==> #[trigger] arcs@[k].nextstate < n - 1,
                    decreases old_arcs@.len() - i,
                {
                    let a = &old_arcs[i];
                    proof {
                        assert(old_arcs@.take(i + 1).drop_last() =~= old_arcs@.take(i as int));
                        assert(self.states@[t as int].arcs@[i as int].nextstate < n);
                    }
                    if a.nextstate != s {
                        let next = if a.nextstate > s { a.nextstate - 1 } else { a.nextstate };
                        arcs.push(Arc { ilabel: a.ilabel, olabel: a.olabel, weight: a.weight.duplicate(), nextstate: next });
                    }
                    i = i + 1;
                }
                proof {
                    assert(old_arcs@.take(old_arcs@.len() as int) =~= old_arcs@);
                }
                let final_weight = match &self.states[t].final_weight {
                    Some(w) => Some(w.duplicate()),
                    None => None,
                };
                let ghost prev = states@;
                states.push(FstState { arcs, final_weight });
                proof {
                    assert forall|u: int| 0 <= u < prev.len() implies #[trigger] states@[u] == prev[u] by {}
                }
            }
            t = t + 1;
        }
        let start = match self.start_state {
            Some(x) => if x == s {
                None
            } else if x < s {
                Some(x)
            } else {
                Some(x - 1)
            },
            None => None,
        };
        self.states = states;
        self.start_state = start;
        Ok(())
    }
}

/// The arcs `arcs` without those into `s`, with every target after `s`
/// moved down by one.
pub open spec fn renumbered_arcs<W>(arcs: Seq<Arc<W>>, s: StateId) -> Seq<Arc<W>>
    decreases arcs.len(),
{
    if arcs.len() == 0 {
        Seq::empty()
    } else {
        let rest = renumbered_arcs(arcs.drop_last(), s);
        let a = arcs.last();
        if a.nextstate == s {
            rest
        } else if a.nextstate > s {
            rest.push(Arc { nextstate: (a.nextstate - 1) as StateId, ..a })
        } else {
            rest.push(a)
        }
    }
}

/// Turns a list of input labels and a list of output labels into a linear
/// transducer whose arcs weigh `zero`; the shorter list is padded with
/// epsilons.
pub fn transducer<W: Semiring>(labels_input: Vec<Label>, labels_output: Vec<Label>) -> (r: VectorFst<W>)
    requires
        labels_input@.len() + 1 < usize::MAX,
        labels_output@.len() + 1 < usize::MAX,
    ensures
        is_linear_fst(r, labels_input@, labels_output@, W::zero_spec(), max_len(labels_input@, labels_output@)),
{
    let zero = W::zero();
    linear_fst(&labels_input, &labels_output, &zero)
}

/// Read access to an automaton: its start state, the final weight of each
/// state and the arcs that leave it.  `state_arcs` and `state_final` are
/// empty and `None` for a state that does not exist.
pub trait Fst<W: Semiring> {
    spec fn start_spec(&self) -> Option<StateId>;

    spec fn state_final(&self, s: int) -> Option<W>;

    spec fn state_arcs(&self, s: int) -> Seq<Arc<W>>;

    fn start(&self) -> (r: Option<StateId>)
        ensures
            r == self.start_spec(),
    ;

    fn final_weight(&self, s: StateId) -> (r: Option<W>)
        ensures
            r == self.state_final(s as int),
    ;

    fn is_final(&self, s: StateId) -> (r: bool)
        ensures
            r == self.state_final(s as int) is Some,
    ;

    fn num_arcs(&self, s: StateId) -> (r: usize)
        ensures
            r == self.state_arcs(s as int).len(),
    ;

    /// Arc `i` of state `s`.
    fn get_arc(&self, s: StateId, i: usize) -> (r: &Arc<W>)
        requires
            i < self.state_arcs(s as int).len(),
        ensures
            *r == self.state_arcs(s as int)[i as int],
    ;
}

impl<W: Semiring> Fst<W> for VectorFst<W> {
    open spec fn start_spec(&self) -> Option<StateId> {
        self.start_state
    }

    open spec fn state_final(&self, s: int) -> Option<W> {
        if 0 <= s < self.states@.len() {
            self.states@[s].final_weight
        } else {
            None
        }
    }

    open spec fn state_arcs(&self, s: int) -> Seq<Arc<W>> {
        if 0 <= s < self.states@.len() {
            self.states@[s].arcs@
        } else {
            Seq::empty()
        }
    }

    fn start(&self) -> (r: Option<StateId>) {
        self.start_state
    }

    fn final_weight(&self, s: StateId) -> (r: Option<W>) {
        if s < self.states.len() {
            match &self.states[s].final_weight {
                Some(w) => Some(w.duplicate()),
                None => None,
            }
        } else {
            None
        }
    }

    fn is_final(&self, s: StateId) -> (r: bool) {
        s < self.states.len() && self.states[s].final_weight.is_some()
    }

    fn num_arcs(&self, s: StateId) -> (r: usize) {
        if s < self.states.len() {
            self.states[s].arcs.len()
        } else {
            0
        }
    }

    fn get_arc(&self, s: StateId, i: usize) -> (r: &Arc<W>) {
        &self.states[s].arcs[i]
    }
}

/// An automaton whose states are all materialized, so that it knows their
/// number.
pub trait ExpandedFst<W: Semiring>: Fst<W> {
    spec fn state_count(&self) -> nat;

    fn num_states(&self) -> (r: usize)
        ensures
            r == self.state_count(),
    ;
}

impl<W: Semiring> ExpandedFst<W> for VectorFst<W> {
    open spec fn state_count(&self) -> nat {
        self.states@.len()
    }

    fn num_states(&self) -> (r: usize) {
        self.states.len()
    }
}

/// The arcs `arcs`, each with its target moved up by `offset`.
pub open spec fn shifted_arcs<W>(arcs: Seq<Arc<W>>, offset: int) -> Seq<Arc<W>> {
    arcs.map_values(|a: Arc<W>| shift_arc(a, offset))
}

} // verus!
