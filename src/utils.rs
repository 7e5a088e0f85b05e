use vstd::prelude::*;

use crate::fst::{Arc, VectorFst};
use crate::semiring::Semiring;
use crate::{Label, EPS_LABEL};

verus! {

/// The `k`-th label of `labels`, or epsilon past its end.
pub open spec fn label_at(labels: Seq<Label>, k: int) -> Label {
    if 0 <= k < labels.len() {
        labels[k]
    } else {
        EPS_LABEL
    }
}

pub open spec fn max_len(a: Seq<Label>, b: Seq<Label>) -> nat {
    if a.len() >= b.len() {
        a.len()
    } else {
        b.len()
    }
}

/// `f` is a chain of `n + 1` states starting at `0`: state `k < n` has the
/// single arc `label_at(ilabels, k) : label_at(olabels, k) / arc_weight` to
/// state `k + 1`, and only state `n` is final, with weight `one`.
pub open spec fn is_linear_fst<W: Semiring>(
    f: VectorFst<W>,
    ilabels: Seq<Label>,
    olabels: Seq<Label>,
    arc_weight: W,
    n: nat,
) -> bool {
    &&& f.wf()
    &&& f.states@.len() == n + 1
    &&& f.start_state == Some(0usize)
    &&& forall|k: int| 0 <= k < n ==> (#[trigger] f.states@[k]).arcs@ == seq![
        Arc {
            ilabel: label_at(ilabels, k),
            olabel: label_at(olabels, k),
            weight: arc_weight,
            nextstate: (k + 1) as usize,
        },
    ]
    &&& forall|k: int| 0 <= k < n ==> (#[trigger] f.states@[k]).final_weight is None
    &&& f.states@[n as int].arcs@.len() == 0
    &&& f.states@[n as int].final_weight == Some(W::one_spec())
}

/// Builds the chain automaton of `is_linear_fst`, the shorter label list
/// padded with epsilons.
pub(crate) fn linear_fst<W: Semiring>(
    labels_input: &Vec<Label>,
    labels_output: &Vec<Label>,
    arc_weight: &W,
) -> (r: VectorFst<W>)
    requires
        labels_input@.len() + 1 < usize::MAX,
        labels_output@.len() + 1 < usize::MAX,
    ensures
        is_linear_fst(r, labels_input@, labels_output@, *arc_weight, max_len(labels_input@, labels_output@)),
{
    let n = if labels_input.len() >= labels_output.len() {
        labels_input.len()
    } else {
        labels_output.len()
    };
    let mut fst: VectorFst<W> = VectorFst::new();
    let mut state_cour = fst.add_state();
    let _ = fst.set_start(state_cour);
    let mut k: usize = 0;
    while k < n
        invariant
            0 <= k <= n,
            n == max_len(labels_input@, labels_output@),
            n + 1 < usize::MAX,
            state_cour == k,
            fst.wf(),
            fst.states@.len() == k + 1,
            fst.start_state == Some(0usize),
            forall|j: int| 0 <= j < k ==> (#[trigger] fst.states@[j]).arcs@ == seq![
                Arc {
                    ilabel: label_at(labels_input@, j),
                    olabel: label_at(labels_output@, j),
                    weight: *arc_weight,
                    nextstate: (j + 1) as usize,
                },
            ],
            forall|j: int| 0 <= j <= k ==> (#[trigger] fst.states@[j]).final_weight is None,
            fst.states@[k as int].arcs@.len() == 0,
        decreases n - k,
    {
        let i = if k < labels_input.len() { labels_input[k] } else { EPS_LABEL };
        let o = if k < labels_output.len() { labels_output[k] } else { EPS_LABEL };
        let new_state = fst.add_state();
        let ghost mid = fst.states@;
        let _ = fst.add_arc(state_cour, Arc::new(i, o, arc_weight.duplicate(), new_state));
        proof {
            assert forall|j: int| 0 <= j <= k + 1 && j != k implies #[trigger] fst.states@[j] == mid[j] by {}
            assert(fst.states@[k as int].arcs@ =~= seq![
                Arc {
                    ilabel: label_at(labels_input@, k as int),
                    olabel: label_at(labels_output@, k as int),
                    weight: *arc_weight,
                    nextstate: (k + 1) as usize,
                },
            ]);
        }
        state_cour = new_state;
        k = k + 1;
    }
    let _ = fst.set_final(state_cour, W::one());
    fst
}

/// Turns a list of input labels and a list of output labels into a linear
/// transducer whose arcs weigh `one`; the shorter list is padded with
/// epsilons.
pub fn transducer<W: Semiring>(labels_input: Vec<Label>, labels_output: Vec<Label>) -> (r: VectorFst<W>)
    requires
        labels_input@.len() + 1 < usize::MAX,
        labels_output@.len() + 1 < usize::MAX,
    ensures
        is_linear_fst(r, labels_input@, labels_output@, W::one_spec(), max_len(labels_input@, labels_output@)),
{
    let one = W::one();
    linear_fst(&labels_input, &labels_output, &one)
}

/// Turns a list of labels into a linear acceptor: each arc carries the same
/// label on both sides and weighs `one`.
pub fn acceptor<W: Semiring>(labels: Vec<Label>) -> (r: VectorFst<W>)
    requires
        labels@.len() + 1 < usize::MAX,
    ensures
        is_linear_fst(r, labels@, labels@, W::one_spec(), labels@.len()),
{
    let one = W::one();
    linear_fst(&labels, &labels, &one)
}

} // verus!
