use vstd::prelude::*;

use crate::compose_filter::{filter_step, multi_eps_arcs, FilterState, MultiEpsFilter};
use crate::fst::{Arc, ExpandedFst, Fst, VectorFst};
use crate::matcher::{ArcMatcher, MatchType};
use crate::semiring::Semiring;
use crate::state_table::{tuple_in_range, ComposeStateTable, ComposeStateTuple};
use crate::{StateId, EPS_LABEL, NO_LABEL};

verus! {

/// The arc that stands for "side 1 does not move" at state `s`.
pub open spec fn stay_arc1<W: Semiring>(s: StateId) -> Arc<W> {
    Arc { ilabel: EPS_LABEL, olabel: NO_LABEL, weight: W::one_spec(), nextstate: s }
}

/// The arc that stands for "side 2 does not move" at state `s`.
pub open spec fn stay_arc2<W: Semiring>(s: StateId) -> Arc<W> {
    Arc { ilabel: NO_LABEL, olabel: EPS_LABEL, weight: W::one_spec(), nextstate: s }
}

/// The arc of a step at state `s`: its `i`-th arc, or the staying arc where
/// `i == -1`.
pub open spec fn step_arc1<W: Semiring>(f: VectorFst<W>, s: StateId, i: int) -> Arc<W> {
    if i == -1 {
        stay_arc1(s)
    } else {
        f.states@[s as int].arcs@[i]
    }
}

pub open spec fn step_arc2<W: Semiring>(f: VectorFst<W>, s: StateId, i: int) -> Arc<W> {
    if i == -1 {
        stay_arc2(s)
    } else {
        f.states@[s as int].arcs@[i]
    }
}

/// The product arc of the step that takes arc `i1` of `src.s1` (or stays)
/// and arc `i2` of `src.s2` (or stays), and reaches product state `dst`: the
/// filter admits the pair and leads to `dst.fs`, the labels are the first
/// arc's input and the second arc's output after the multi-epsilon
/// relabelling, and the weight is the product of the two weights.
pub open spec fn is_product_step<W: Semiring>(
    f1: VectorFst<W>,
    f2: VectorFst<W>,
    keep_multi_eps: bool,
    src: ComposeStateTuple,
    i1: int,
    i2: int,
    a: Arc<W>,
    dst: ComposeStateTuple,
) -> bool {
    let a1 = step_arc1(f1, src.s1, i1);
    let a2 = step_arc2(f2, src.s2, i2);
    let labelled = multi_eps_arcs(a1, a2, keep_multi_eps);
    &&& -1 <= i1 < f1.states@[src.s1 as int].arcs@.len()
    &&& -1 <= i2 < f2.states@[src.s2 as int].arcs@.len()
    &&& !(i1 == -1 && i2 == -1)
    &&& filter_step(src.fs, a1.olabel, a2.ilabel) != FilterState::Blocked
    &&& dst == ComposeStateTuple {
        s1: a1.nextstate,
        s2: a2.nextstate,
        fs: filter_step(src.fs, a1.olabel, a2.ilabel),
    }
    &&& a.ilabel == labelled.0.ilabel
    &&& a.olabel == labelled.1.olabel
    &&& a.weight == W::times_spec(a1.weight, a2.weight)
}

pub open spec fn is_product_arc<W: Semiring>(
    f1: VectorFst<W>,
    f2: VectorFst<W>,
    keep_multi_eps: bool,
    src: ComposeStateTuple,
    a: Arc<W>,
    dst: ComposeStateTuple,
) -> bool {
    exists|i1: int, i2: int| is_product_step(f1, f2, keep_multi_eps, src, i1, i2, a, dst)
}

/// The final weight of a product state: the product of both final weights
/// where both states are final, else none.
pub open spec fn product_final<W: Semiring>(f1: VectorFst<W>, f2: VectorFst<W>, t: ComposeStateTuple) -> Option<W> {
    match (f1.states@[t.s1 as int].final_weight, f2.states@[t.s2 as int].final_weight) {
        (Some(w1), Some(w2)) => Some(W::times_spec(w1, w2)),
        _ => None,
    }
}

/// The step of arc `i1` of `src.s1` (or staying, `-1`) and arc `i2` of
/// `src.s2` (or staying) is one that the filter admits, neither arc that
/// moves carrying `NO_LABEL` on the matched side.
pub open spec fn is_admissible_step<W: Semiring>(
    f1: VectorFst<W>,
    f2: VectorFst<W>,
    src: ComposeStateTuple,
    i1: int,
    i2: int,
) -> bool {
    let a1 = step_arc1(f1, src.s1, i1);
    let a2 = step_arc2(f2, src.s2, i2);
    &&& -1 <= i1 < f1.states@[src.s1 as int].arcs@.len()
    &&& -1 <= i2 < f2.states@[src.s2 as int].arcs@.len()
    &&& !(i1 == -1 && i2 == -1)
    &&& (i1 != -1 ==> a1.olabel != NO_LABEL)
    &&& (i2 != -1 ==> a2.ilabel != NO_LABEL)
    &&& filter_step(src.fs, a1.olabel, a2.ilabel) != FilterState::Blocked
}

/// Among `arcs`, the arcs of product state `src`, one is the product arc of
/// the step `(i1, i2)`, leading to the product state that `tuples` numbers
/// by its target.
pub open spec fn has_step_arc<W: Semiring>(
    f1: VectorFst<W>,
    f2: VectorFst<W>,
    keep_multi_eps: bool,
    src: ComposeStateTuple,
    arcs: Seq<Arc<W>>,
    tuples: Seq<ComposeStateTuple>,
    i1: int,
    i2: int,
) -> bool {
    exists|k: int|
        0 <= k < arcs.len() && arcs[k].nextstate < tuples.len() && is_product_step(
            f1,
            f2,
            keep_multi_eps,
            src,
            i1,
            i2,
            #[trigger] arcs[k],
            tuples[arcs[k].nextstate as int],
        )
}

proof fn lemma_step_arc_kept<W: Semiring>(
    f1: VectorFst<W>,
    f2: VectorFst<W>,
    keep_multi_eps: bool,
    src: ComposeStateTuple,
    arcs0: Seq<Arc<W>>,
    tuples0: Seq<ComposeStateTuple>,
    arcs1: Seq<Arc<W>>,
    tuples1: Seq<ComposeStateTuple>,
    i1: int,
    i2: int,
)
    requires
        has_step_arc(f1, f2, keep_multi_eps, src, arcs0, tuples0, i1, i2),
        arcs1.len() >= arcs0.len(),
        forall|k: int| 0 <= k < arcs0.len() ==> arcs1[k] == arcs0[k],
        tuples1.len() >= tuples0.len(),
        forall|m: int| 0 <= m < tuples0.len() ==> tuples1[m] == tuples0[m],
    ensures
        has_step_arc(f1, f2, keep_multi_eps, src, arcs1, tuples1, i1, i2),
{
    let k = choose|k: int|
        0 <= k < arcs0.len() && arcs0[k].nextstate < tuples0.len() && is_product_step(
            f1,
            f2,
            keep_multi_eps,
            src,
            i1,
            i2,
            #[trigger] arcs0[k],
            tuples0[arcs0[k].nextstate as int],
        );
    assert(arcs1[k] == arcs0[k]);
    assert(tuples1[arcs0[k].nextstate as int] == tuples0[arcs0[k].nextstate as int]);
}

/// What holds of the product and its table at every point of the
/// exploration, where product states from `explored` on are not expanded.
pub open spec fn engine_inv<W: Semiring>(
    f1: VectorFst<W>,
    f2: VectorFst<W>,
    keep_multi_eps: bool,
    out: VectorFst<W>,
    table: ComposeStateTable,
    explored: int,
) -> bool {
    &&& f1.wf()
    &&& f2.wf()
    &&& table.wf()
    &&& table.n1 == f1.states@.len()
    &&& table.n2 == f2.states@.len()
    &&& out.wf()
    &&& out.states@.len() == table.tuples@.len()
    &&& 0 <= explored <= table.tuples@.len()
    &&& forall|j: int|
        0 <= j < out.states@.len() ==> (#[trigger] out.states@[j]).final_weight == if j < explored {
            product_final(f1, f2, table.tuples@[j])
        } else {
            None
        }
    &&& forall|j: int| explored < j < out.states@.len() ==> (#[trigger] out.states@[j]).arcs@.len() == 0
    &&& forall|j: int, k: int|
        0 <= j < out.states@.len() && 0 <= k < out.states@[j].arcs@.len() ==> is_product_arc(
            f1,
            f2,
            keep_multi_eps,
            table.tuples@[j],
            #[trigger] out.states@[j].arcs@[k],
            table.tuples@[out.states@[j].arcs@[k].nextstate as int],
        )
    &&& forall|j: int, i1: int, i2: int|
        0 <= j < explored && #[trigger] is_admissible_step(f1, f2, table.tuples@[j], i1, i2) ==> has_step_arc(
            f1,
            f2,
            keep_multi_eps,
            table.tuples@[j],
            out.states@[j].arcs@,
            table.tuples@,
            i1,
            i2,
        )
}

/// `steps[j][k]` is the step `(i1, i2)` whose product arc is arc `k` of
/// product state `j`, and no step gives two arcs of one state.
pub open spec fn arc_steps_ok<W: Semiring>(
    f1: VectorFst<W>,
    f2: VectorFst<W>,
    keep_multi_eps: bool,
    out: VectorFst<W>,
    table: ComposeStateTable,
    steps: Seq<Seq<(int, int)>>,
) -> bool {
    &&& steps.len() == out.states@.len()
    &&& forall|j: int| 0 <= j < steps.len() ==> (#[trigger] steps[j]).len() == out.states@[j].arcs@.len()
    &&& forall|j: int, k: int|
        0 <= j < steps.len() && 0 <= k < steps[j].len() ==> is_product_step(
            f1,
            f2,
            keep_multi_eps,
            table.tuples@[j],
            (#[trigger] steps[j][k]).0,
            steps[j][k].1,
            out.states@[j].arcs@[k],
            table.tuples@[out.states@[j].arcs@[k].nextstate as int],
        )
    &&& forall|j: int, k1: int, k2: int|
        0 <= j < steps.len() && 0 <= k1 < steps[j].len() && 0 <= k2 < steps[j].len() && k1 != k2
            ==> #[trigger] steps[j][k1] != #[trigger] steps[j][k2]
}

/// `out` is the composition of `f1` and `f2` and `table` its key table:
/// every product state is expanded, its key is unique, the start state is
/// the key of both start states, final weights multiply, and every arc is a
/// step that the filter admits.
pub open spec fn is_composition<W: Semiring>(
    f1: VectorFst<W>,
    f2: VectorFst<W>,
    keep_multi_eps: bool,
    out: VectorFst<W>,
    table: ComposeStateTable,
) -> bool {
    &&& engine_inv(f1, f2, keep_multi_eps, out, table, table.tuples@.len() as int)
    &&& exists|steps: Seq<Seq<(int, int)>>| arc_steps_ok(f1, f2, keep_multi_eps, out, table, steps)
    &&& out.states@.len() <= f1.states@.len() * f2.states@.len() * 3
    &&& match (f1.start_state, f2.start_state) {
        (Some(a), Some(b)) => {
            &&& out.start_state == Some(0usize)
            &&& table.tuples@[0] == (ComposeStateTuple { s1: a, s2: b, fs: FilterState::BothMayEps })
        },
        _ => out.start_state is None && out.states@.len() == 0,
    }
}

/// Tries the step of arc `i1` of side 1 (or staying, `-1`) and arc `i2` of
/// side 2 from product state `j`; adds its product arc where the filter
/// admits it.
fn add_product_arc<W: Semiring>(
    f1: &VectorFst<W>,
    f2: &VectorFst<W>,
    filter: &MultiEpsFilter,
    out: &mut VectorFst<W>,
    table: &mut ComposeStateTable,
    j: usize,
    arc1: Arc<W>,
    arc2: Arc<W>,
    Ghost(i1): Ghost<int>,
    Ghost(i2): Ghost<int>,
    Ghost(steps): Ghost<Seq<Seq<(int, int)>>>,
) -> (r: Ghost<Seq<Seq<(int, int)>>>)
    requires
        engine_inv(*f1, *f2, filter.keep_multi_eps, *old(out), *old(table), j as int),
        arc_steps_ok(*f1, *f2, filter.keep_multi_eps, *old(out), *old(table), steps),
        !steps[j as int].contains((i1, i2)),
        j < old(table).tuples@.len(),
        filter.filter.fs == old(table).tuples@[j as int].fs,
        -1 <= i1 < f1.states@[old(table).tuples@[j as int].s1 as int].arcs@.len(),
        -1 <= i2 < f2.states@[old(table).tuples@[j as int].s2 as int].arcs@.len(),
        !(i1 == -1 && i2 == -1),
        arc1 == step_arc1(*f1, old(table).tuples@[j as int].s1, i1),
        arc2 == step_arc2(*f2, old(table).tuples@[j as int].s2, i2),
    ensures
        engine_inv(*f1, *f2, filter.keep_multi_eps, *final(out), *final(table), j as int),
        final(table).tuples@.len() >= old(table).tuples@.len(),
        forall|m: int| 0 <= m < old(table).tuples@.len() ==> #[trigger] final(table).tuples@[m] == old(table).tuples@[m],
        final(out).start_state == old(out).start_state,
        arc_steps_ok(*f1, *f2, filter.keep_multi_eps, *final(out), *final(table), r@),
        r@[j as int] == steps[j as int] || r@[j as int] == steps[j as int].push((i1, i2)),
        final(out).states@[j as int].arcs@.len() >= old(out).states@[j as int].arcs@.len(),
        forall|k: int| 0 <= k < old(out).states@[j as int].arcs@.len() ==> #[trigger] final(out).states@[j as int].arcs@[k]
            == old(out).states@[j as int].arcs@[k],
        is_admissible_step(*f1, *f2, old(table).tuples@[j as int], i1, i2) ==> has_step_arc(
            *f1,
            *f2,
            filter.keep_multi_eps,
            old(table).tuples@[j as int],
            final(out).states@[j as int].arcs@,
            final(table).tuples@,
            i1,
            i2,
        ),
{
    let ghost t = table.tuples@[j as int];
    let ghost a1 = arc1;
    let ghost a2 = arc2;
    proof {
        if i1 != -1 {
            assert(f1.states@[t.s1 as int].arcs@[i1].nextstate < f1.states@.len());
        }
        if i2 != -1 {
            assert(f2.states@[t.s2 as int].arcs@[i2].nextstate < f2.states@.len());
        }
    }
    let mut arc1 = arc1;
    let mut arc2 = arc2;
    let next1 = arc1.nextstate;
    let next2 = arc2.nextstate;
    let fs = filter.filter_arc(&mut arc1, &mut arc2);
    if fs == FilterState::Blocked {
        return Ghost(steps);
    }
    let dst = ComposeStateTuple { s1: next1, s2: next2, fs };
    let ghost old_table = *table;
    let ghost old_out = *out;
    let (id, is_new) = table.find_id(dst);
    if is_new {
        let _ = out.add_state();
    }
    let ghost mid_out = *out;
    let weight = arc1.weight.times(&arc2.weight);
    let product = Arc { ilabel: arc1.ilabel, olabel: arc2.olabel, weight, nextstate: id };
    let _ = out.add_arc(j, product);
    proof {
        assert(a1.weight == arc1.weight);
        assert(is_product_step(*f1, *f2, filter.keep_multi_eps, t, i1, i2, product, dst));
        assert(is_product_arc(*f1, *f2, filter.keep_multi_eps, t, product, dst));
        assert forall|m: int| 0 <= m < out.states@.len() && m != j implies #[trigger] out.states@[m]
            == mid_out.states@[m] by {}
        assert forall|m: int| 0 <= m < old_out.states@.len() implies #[trigger] mid_out.states@[m]
            == old_out.states@[m] by {}
        assert forall|m: int| 0 <= m < old_table.tuples@.len() implies #[trigger] table.tuples@[m]
            == old_table.tuples@[m] by {}
        assert forall|m: int, k: int|
            0 <= m < out.states@.len() && 0 <= k < out.states@[m].arcs@.len() implies is_product_arc(
            *f1,
            *f2,
            filter.keep_multi_eps,
            table.tuples@[m],
            #[trigger] out.states@[m].arcs@[k],
            table.tuples@[out.states@[m].arcs@[k].nextstate as int],
        ) by {
            if m == j && k == out.states@[m].arcs@.len() - 1 {
                assert(out.states@[m].arcs@[k] == product);
            } else if m < old_out.states@.len() {
                assert(out.states@[m].arcs@[k] == old_out.states@[m].arcs@[k]);
                assert(old_out.states@[m].arcs@[k].nextstate < old_out.states@.len());
            }
        }
        let last = out.states@[j as int].arcs@.len() - 1;
        assert(out.states@[j as int].arcs@[last] == product);
        assert(has_step_arc(*f1, *f2, filter.keep_multi_eps, t, out.states@[j as int].arcs@, table.tuples@, i1, i2));
        assert forall|m: int, c1: int, c2: int|
            0 <= m < j && #[trigger] is_admissible_step(*f1, *f2, table.tuples@[m], c1, c2) implies has_step_arc(
            *f1,
            *f2,
            filter.keep_multi_eps,
            table.tuples@[m],
            out.states@[m].arcs@,
            table.tuples@,
            c1,
            c2,
        ) by {
            assert(table.tuples@[m] == old_table.tuples@[m]);
            assert(out.states@[m] == old_out.states@[m]);
            assert(is_admissible_step(*f1, *f2, old_table.tuples@[m], c1, c2));
            lemma_step_arc_kept(
                *f1,
                *f2,
                filter.keep_multi_eps,
                table.tuples@[m],
                old_out.states@[m].arcs@,
                old_table.tuples@,
                out.states@[m].arcs@,
                table.tuples@,
                c1,
                c2,
            );
        }
    }
    let ghost grown = if is_new {
        steps.push(Seq::empty())
    } else {
        steps
    };
    let ghost new_steps = grown.update(j as int, steps[j as int].push((i1, i2)));
    proof {
        assert(new_steps.len() == out.states@.len());
        assert forall|m: int| 0 <= m < new_steps.len() implies (#[trigger] new_steps[m]).len()
            == out.states@[m].arcs@.len() by {
            if m != j && m < steps.len() {
                assert(out.states@[m] == old_out.states@[m]);
            }
        }
        assert forall|m: int, k: int|
            0 <= m < new_steps.len() && 0 <= k < new_steps[m].len() implies is_product_step(
            *f1,
            *f2,
            filter.keep_multi_eps,
            table.tuples@[m],
            (#[trigger] new_steps[m][k]).0,
            new_steps[m][k].1,
            out.states@[m].arcs@[k],
            table.tuples@[out.states@[m].arcs@[k].nextstate as int],
        ) by {
            if m == j && k == steps[j as int].len() {
                assert(out.states@[m].arcs@[k] == product);
            } else {
                assert(m < steps.len());
                assert(new_steps[m][k] == steps[m][k]);
                assert(out.states@[m].arcs@[k] == old_out.states@[m].arcs@[k]);
                assert(old_out.states@[m].arcs@[k].nextstate < old_out.states@.len());
                assert(table.tuples@[m] == old_table.tuples@[m]);
            }
        }
        assert forall|m: int, k1: int, k2: int|
            0 <= m < new_steps.len() && 0 <= k1 < new_steps[m].len() && 0 <= k2 < new_steps[m].len()
                && k1 != k2 implies #[trigger] new_steps[m][k1] != #[trigger] new_steps[m][k2] by {
            if m == j {
                if k1 == steps[j as int].len() {
                    assert(steps[j as int][k2] == new_steps[m][k2]);
                } else if k2 == steps[j as int].len() {
                    assert(steps[j as int][k1] == new_steps[m][k1]);
                }
            }
        }
    }
    Ghost(new_steps)
}

proof fn lemma_steps_kept<W: Semiring>(
    f1: VectorFst<W>,
    f2: VectorFst<W>,
    keep_multi_eps: bool,
    src: ComposeStateTuple,
    arcs0: Seq<Arc<W>>,
    tuples0: Seq<ComposeStateTuple>,
    arcs1: Seq<Arc<W>>,
    tuples1: Seq<ComposeStateTuple>,
)
    requires
        arcs1.len() >= arcs0.len(),
        forall|k: int| 0 <= k < arcs0.len() ==> arcs1[k] == arcs0[k],
        tuples1.len() >= tuples0.len(),
        forall|m: int| 0 <= m < tuples0.len() ==> tuples1[m] == tuples0[m],
    ensures
        forall|i1: int, i2: int|
            #[trigger] has_step_arc(f1, f2, keep_multi_eps, src, arcs0, tuples0, i1, i2) ==> has_step_arc(
                f1,
                f2,
                keep_multi_eps,
                src,
                arcs1,
                tuples1,
                i1,
                i2,
            ),
{
    assert forall|i1: int, i2: int|
        #[trigger] has_step_arc(f1, f2, keep_multi_eps, src, arcs0, tuples0, i1, i2) implies has_step_arc(
        f1,
        f2,
        keep_multi_eps,
        src,
        arcs1,
        tuples1,
        i1,
        i2,
    ) by {
        lemma_step_arc_kept(f1, f2, keep_multi_eps, src, arcs0, tuples0, arcs1, tuples1, i1, i2);
    }
}

/// Expands product state `j`: every arc pair of its two states that the
/// filter admits becomes a product arc, found through a matcher on the
/// input labels of side 2, and every epsilon-only step of either side is
/// tried against the staying arc of the other.
fn expand_state<W: Semiring>(
    f1: &VectorFst<W>,
    f2: &VectorFst<W>,
    filter: &mut MultiEpsFilter,
    out: &mut VectorFst<W>,
    table: &mut ComposeStateTable,
    j: usize,
    Ghost(steps0): Ghost<Seq<Seq<(int, int)>>>,
) -> (r: Ghost<Seq<Seq<(int, int)>>>)
    requires
        engine_inv(*f1, *f2, old(filter).keep_multi_eps, *old(out), *old(table), j as int),
        j < old(table).tuples@.len(),
        arc_steps_ok(*f1, *f2, old(filter).keep_multi_eps, *old(out), *old(table), steps0),
        steps0[j as int].len() == 0,
    ensures
        engine_inv(*f1, *f2, old(filter).keep_multi_eps, *final(out), *final(table), j as int),
        arc_steps_ok(*f1, *f2, old(filter).keep_multi_eps, *final(out), *final(table), r@),
        final(filter).keep_multi_eps == old(filter).keep_multi_eps,
        final(table).tuples@.len() >= old(table).tuples@.len(),
        forall|m: int| 0 <= m < old(table).tuples@.len() ==> #[trigger] final(table).tuples@[m] == old(table).tuples@[m],
        final(out).start_state == old(out).start_state,
        forall|i1: int, i2: int|
            #[trigger] is_admissible_step(*f1, *f2, final(table).tuples@[j as int], i1, i2) ==> has_step_arc(
                *f1,
                *f2,
                old(filter).keep_multi_eps,
                final(table).tuples@[j as int],
                final(out).states@[j as int].arcs@,
                final(table).tuples@,
                i1,
                i2,
            ),
{
    let t = table.find_tuple(j);
    filter.set_state(t.s1, t.s2, t.fs);
    let ghost keep = filter.keep_multi_eps;
    let ghost out0 = *out;
    let ghost table0 = *table;
    let ghost mut steps = steps0;
    let matcher2 = ArcMatcher::new(f2, MatchType::MatchInput);
    let n_arcs1 = f1.states[t.s1].arcs.len();
    let n_arcs2 = f2.states[t.s2].arcs.len();
    let mut i1: usize = 0;
    while i1 < n_arcs1
        invariant
            engine_inv(*f1, *f2, keep, *out, *table, j as int),
            filter.keep_multi_eps == keep,
            filter.filter.fs == t.fs,
            j < table.tuples@.len(),
            t == table.tuples@[j as int],
            0 <= i1 <= n_arcs1,
            n_arcs1 == f1.states@[t.s1 as int].arcs@.len(),
            n_arcs2 == f2.states@[t.s2 as int].arcs@.len(),
            *matcher2.fst == *f2,
            matcher2.match_type == MatchType::MatchInput,
            table.tuples@.len() >= table0.tuples@.len(),
            forall|m: int| 0 <= m < table0.tuples@.len() ==> #[trigger] table.tuples@[m] == table0.tuples@[m],
            out.start_state == out0.start_state,
            arc_steps_ok(*f1, *f2, keep, *out, *table, steps),
            forall|m: int| 0 <= m < steps[j as int].len() ==> 0 <= (#[trigger] steps[j as int][m]).0 < i1,
            forall|c1: int, c2: int|
                0 <= c1 < i1 && #[trigger] is_admissible_step(*f1, *f2, t, c1, c2) ==> has_step_arc(
                    *f1,
                    *f2,
                    keep,
                    t,
                    out.states@[j as int].arcs@,
                    table.tuples@,
                    c1,
                    c2,
                ),
        decreases n_arcs1 - i1,
    {
        let arc1 = &f1.states[t.s1].arcs[i1];
        if arc1.olabel == EPS_LABEL {
            let stay2 = Arc::new(NO_LABEL, EPS_LABEL, W::one(), t.s2);
            let ghost arcs_before = out.states@[j as int].arcs@;
            let ghost tuples_before = table.tuples@;
            let ghost before_steps = steps;
            let Ghost(next_steps) = add_product_arc(f1, f2, filter, out, table, j, arc1.duplicate(), stay2, Ghost(i1 as int), Ghost(-1), Ghost(steps));
            proof {
                steps = next_steps;
                assert forall|m: int| 0 <= m < steps[j as int].len() implies (#[trigger] steps[j as int][m]).0 >= 0
                    && ((steps[j as int][m]).0 < i1 || (steps[j as int][m] == (i1 as int, -1int))) by {
                    if m < before_steps[j as int].len() {
                        assert(steps[j as int][m] == before_steps[j as int][m]);
                    }
                }
            }
            proof {
                lemma_steps_kept(*f1, *f2, keep, t, arcs_before, tuples_before, out.states@[j as int].arcs@, table.tuples@);
            }
        }
        let matches = matcher2.find(t.s2, arc1.olabel);
        let mut k: usize = 0;
        while k < matches.len()
            invariant
                engine_inv(*f1, *f2, keep, *out, *table, j as int),
                filter.keep_multi_eps == keep,
                filter.filter.fs == t.fs,
                j < table.tuples@.len(),
                t == table.tuples@[j as int],
                0 <= k <= matches@.len(),
                i1 < n_arcs1,
                n_arcs1 == f1.states@[t.s1 as int].arcs@.len(),
                n_arcs2 == f2.states@[t.s2 as int].arcs@.len(),
                *arc1 == f1.states@[t.s1 as int].arcs@[i1 as int],
                forall|m: int| 0 <= m < matches@.len() ==> #[trigger] matches@[m] < n_arcs2,
                forall|i: int|
                    0 <= i < n_arcs2 && (#[trigger] f2.states@[t.s2 as int].arcs@[i]).ilabel == arc1.olabel
                        ==> matches@.contains(i as usize),
                table.tuples@.len() >= table0.tuples@.len(),
                forall|m: int| 0 <= m < table0.tuples@.len() ==> #[trigger] table.tuples@[m] == table0.tuples@[m],
                out.start_state == out0.start_state,
                arc_steps_ok(*f1, *f2, keep, *out, *table, steps),
                forall|m1: int, m2: int| 0 <= m1 < m2 < matches@.len() ==> matches@[m1] < matches@[m2],
                forall|m: int| 0 <= m < steps[j as int].len() ==> 0 <= (#[trigger] steps[j as int][m]).0
                    && (steps[j as int][m].0 < i1 || (steps[j as int][m].0 == i1 && steps[j as int][m].1 < if k == 0 {
                        0int
                    } else {
                        matches@[k - 1] + 1
                    })),
                forall|c1: int, c2: int|
                    0 <= c1 < i1 && #[trigger] is_admissible_step(*f1, *f2, t, c1, c2) ==> has_step_arc(
                        *f1,
                        *f2,
                        keep,
                        t,
                        out.states@[j as int].arcs@,
                        table.tuples@,
                        c1,
                        c2,
                    ),
                is_admissible_step(*f1, *f2, t, i1 as int, -1) ==> has_step_arc(
                    *f1,
                    *f2,
                    keep,
                    t,
                    out.states@[j as int].arcs@,
                    table.tuples@,
                    i1 as int,
                    -1,
                ),
                forall|m: int| 0 <= m < k ==> #[trigger] has_step_arc(
                    *f1,
                    *f2,
                    keep,
                    t,
                    out.states@[j as int].arcs@,
                    table.tuples@,
                    i1 as int,
                    matches@[m] as int,
                ) || !is_admissible_step(*f1, *f2, t, i1 as int, matches@[m] as int),
            decreases matches@.len() - k,
        {
            let i2 = matches[k];
            let arc2 = &f2.states[t.s2].arcs[i2];
            let ghost arcs_before = out.states@[j as int].arcs@;
            let ghost tuples_before = table.tuples@;
            let ghost before_steps = steps;
            let Ghost(next_steps) = add_product_arc(f1, f2, filter, out, table, j, arc1.duplicate(), arc2.duplicate(), Ghost(i1 as int), Ghost(i2 as int), Ghost(steps));
            proof {
                steps = next_steps;
                if k > 0 {
                    assert(matches@[k - 1] < matches@[k as int]);
                }
                assert forall|m: int| 0 <= m < steps[j as int].len() implies 0 <= (#[trigger] steps[j as int][m]).0
                    && (steps[j as int][m].0 < i1 || (steps[j as int][m].0 == i1 && steps[j as int][m].1 < matches@[k as int] + 1)) by {
                    if m < before_steps[j as int].len() {
                        assert(steps[j as int][m] == before_steps[j as int][m]);
                    }
                }
            }
            proof {
                lemma_steps_kept(*f1, *f2, keep, t, arcs_before, tuples_before, out.states@[j as int].arcs@, table.tuples@);
                assert forall|m: int| 0 <= m < k + 1 implies #[trigger] has_step_arc(
                    *f1,
                    *f2,
                    keep,
                    t,
                    out.states@[j as int].arcs@,
                    table.tuples@,
                    i1 as int,
                    matches@[m] as int,
                ) || !is_admissible_step(*f1, *f2, t, i1 as int, matches@[m] as int) by {
                    if m < k {
                        if is_admissible_step(*f1, *f2, t, i1 as int, matches@[m] as int) {
                            assert(has_step_arc(*f1, *f2, keep, t, arcs_before, tuples_before, i1 as int, matches@[m] as int));
                        }
                    }
                }
            }
            k = k + 1;
        }
        proof {
            assert forall|c1: int, c2: int|
                0 <= c1 < i1 + 1 && #[trigger] is_admissible_step(*f1, *f2, t, c1, c2) implies has_step_arc(
                *f1,
                *f2,
                keep,
                t,
                out.states@[j as int].arcs@,
                table.tuples@,
                c1,
                c2,
            ) by {
                if c1 == i1 && c2 != -1 {
                    assert(f2.states@[t.s2 as int].arcs@[c2].ilabel == arc1.olabel);
                    assert(matches@.contains(c2 as usize));
                    let m = choose|m: int| 0 <= m < matches@.len() && matches@[m] == c2 as usize;
                    assert(has_step_arc(
                        *f1,
                        *f2,
                        keep,
                        t,
                        out.states@[j as int].arcs@,
                        table.tuples@,
                        i1 as int,
                        matches@[m] as int,
                    ) || !is_admissible_step(*f1, *f2, t, i1 as int, matches@[m] as int));
                }
            }
        }
        i1 = i1 + 1;
    }
    let mut i2: usize = 0;
    while i2 < n_arcs2
        invariant
            engine_inv(*f1, *f2, keep, *out, *table, j as int),
            filter.keep_multi_eps == keep,
            filter.filter.fs == t.fs,
            j < table.tuples@.len(),
            t == table.tuples@[j as int],
            0 <= i2 <= n_arcs2,
            n_arcs1 == f1.states@[t.s1 as int].arcs@.len(),
            n_arcs2 == f2.states@[t.s2 as int].arcs@.len(),
            table.tuples@.len() >= table0.tuples@.len(),
            forall|m: int| 0 <= m < table0.tuples@.len() ==> #[trigger] table.tuples@[m] == table0.tuples@[m],
            out.start_state == out0.start_state,
            arc_steps_ok(*f1, *f2, keep, *out, *table, steps),
            forall|m: int| 0 <= m < steps[j as int].len() ==> (#[trigger] steps[j as int][m]).0 >= 0
                || (steps[j as int][m].0 == -1 && steps[j as int][m].1 < i2),
            forall|c1: int, c2: int|
                (0 <= c1 || (c1 == -1 && c2 < i2)) && #[trigger] is_admissible_step(*f1, *f2, t, c1, c2)
                    ==> has_step_arc(*f1, *f2, keep, t, out.states@[j as int].arcs@, table.tuples@, c1, c2),
        decreases n_arcs2 - i2,
    {
        let arc2 = &f2.states[t.s2].arcs[i2];
        if arc2.ilabel == EPS_LABEL {
            let stay1 = Arc::new(EPS_LABEL, NO_LABEL, W::one(), t.s1);
            let ghost arcs_before = out.states@[j as int].arcs@;
            let ghost tuples_before = table.tuples@;
            let ghost before_steps = steps;
            let Ghost(next_steps) = add_product_arc(f1, f2, filter, out, table, j, stay1, arc2.duplicate(), Ghost(-1), Ghost(i2 as int), Ghost(steps));
            proof {
                steps = next_steps;
                assert forall|m: int| 0 <= m < steps[j as int].len() implies (#[trigger] steps[j as int][m]).0 >= 0
                    || (steps[j as int][m].0 == -1 && steps[j as int][m].1 < i2 + 1) by {
                    if m < before_steps[j as int].len() {
                        assert(steps[j as int][m] == before_steps[j as int][m]);
                    }
                }
            }
            proof {
                lemma_steps_kept(*f1, *f2, keep, t, arcs_before, tuples_before, out.states@[j as int].arcs@, table.tuples@);
            }
        }
        i2 = i2 + 1;
    }
    Ghost(steps)
}

/// The composition of `fst1` and `fst2`, explored from the pair of start
/// states, with the table that numbers its product states.
pub fn compose_with_state_table<W: Semiring>(
    fst1: &VectorFst<W>,
    fst2: &VectorFst<W>,
    keep_multi_eps: bool,
) -> (r: (VectorFst<W>, ComposeStateTable))
    requires
        fst1.wf(),
        fst2.wf(),
        fst1.no_reserved_labels(),
        fst2.no_reserved_labels(),
        fst1.states@.len() * fst2.states@.len() * 3 < usize::MAX,
    ensures
        is_composition(*fst1, *fst2, keep_multi_eps, r.0, r.1),
{
    let n1 = fst1.num_states();
    let n2 = fst2.num_states();
    let mut table = ComposeStateTable::new(n1, n2);
    let mut out: VectorFst<W> = VectorFst::new();
    let mut filter = MultiEpsFilter::new(keep_multi_eps);
    let (start1, start2) = match (fst1.start(), fst2.start()) {
        (Some(a), Some(b)) => (a, b),
        _ => {
            proof {
                assert(arc_steps_ok(*fst1, *fst2, keep_multi_eps, out, table, Seq::empty()));
            }
            return (out, table);
        },
    };
    let start_tuple = ComposeStateTuple { s1: start1, s2: start2, fs: filter.start() };
    let _ = table.find_id(start_tuple);
    let s0 = out.add_state();
    let _ = out.set_start(s0);
    let ghost mut steps: Seq<Seq<(int, int)>> = seq![Seq::empty()];
    proof {
        assert(out.states@[0].arcs@.len() == 0);
    }
    let mut explored: usize = 0;
    while explored < table.len()
        invariant
            engine_inv(*fst1, *fst2, keep_multi_eps, out, table, explored as int),
            filter.keep_multi_eps == keep_multi_eps,
            table.tuples@.len() >= 1,
            table.tuples@[0] == start_tuple,
            start_tuple == (ComposeStateTuple { s1: start1, s2: start2, fs: FilterState::BothMayEps }),
            out.start_state == Some(0usize),
            arc_steps_ok(*fst1, *fst2, keep_multi_eps, out, table, steps),
            forall|m: int| explored <= m < out.states@.len() ==> (#[trigger] out.states@[m]).arcs@.len() == 0,
        decreases table.capacity() - explored,
    {
        proof {
            assert(steps[explored as int].len() == out.states@[explored as int].arcs@.len());
        }
        let Ghost(next_steps) = expand_state(fst1, fst2, &mut filter, &mut out, &mut table, explored, Ghost(steps));
        proof {
            steps = next_steps;
        }
        let t = table.find_tuple(explored);
        let ghost before = out;
        match (fst1.final_weight(t.s1), fst2.final_weight(t.s2)) {
            (Some(w1), Some(w2)) => {
                let mut w1 = w1;
                let mut w2 = w2;
                filter.filter_final(&mut w1, &mut w2);
                let _ = out.set_final(explored, w1.times(&w2));
            },
            _ => {},
        }
        proof {
            assert forall|m: int| 0 <= m < out.states@.len() && m != explored implies #[trigger] out.states@[m]
                == before.states@[m] by {}
            assert(out.states@[explored as int].arcs@ == before.states@[explored as int].arcs@);
            assert forall|m: int, k: int|
                0 <= m < out.states@.len() && 0 <= k < out.states@[m].arcs@.len() implies is_product_arc(
                *fst1,
                *fst2,
                keep_multi_eps,
                table.tuples@[m],
                #[trigger] out.states@[m].arcs@[k],
                table.tuples@[out.states@[m].arcs@[k].nextstate as int],
            ) by {
                assert(out.states@[m].arcs@ == before.states@[m].arcs@);
            }
            assert forall|m: int| 0 <= m < steps.len() implies (#[trigger] steps[m]).len()
                == out.states@[m].arcs@.len() by {
                assert(out.states@[m].arcs@ == before.states@[m].arcs@);
            }
            assert forall|m: int, k: int|
                0 <= m < steps.len() && 0 <= k < steps[m].len() implies is_product_step(
                *fst1,
                *fst2,
                keep_multi_eps,
                table.tuples@[m],
                (#[trigger] steps[m][k]).0,
                steps[m][k].1,
                out.states@[m].arcs@[k],
                table.tuples@[out.states@[m].arcs@[k].nextstate as int],
            ) by {
                assert(out.states@[m].arcs@ == before.states@[m].arcs@);
            }
        }
        explored = explored + 1;
    }
    proof {
        assert(arc_steps_ok(*fst1, *fst2, keep_multi_eps, out, table, steps));
    }
    (out, table)
}

/// The composition of `fst1` and `fst2`: the product automaton whose states
/// are keys (state of `fst1`, state of `fst2`, filter state), each numbered
/// once, starting from the key of the two start states.  Every state is
/// expanded: each step that the filter admits gives exactly one product arc,
/// and every product arc is such a step.
pub fn compose<W: Semiring>(fst1: &VectorFst<W>, fst2: &VectorFst<W>, keep_multi_eps: bool) -> (r: VectorFst<W>)
    requires
        fst1.wf(),
        fst2.wf(),
        fst1.no_reserved_labels(),
        fst2.no_reserved_labels(),
        fst1.states@.len() * fst2.states@.len() * 3 < usize::MAX,
    ensures
        exists|table: ComposeStateTable| is_composition(*fst1, *fst2, keep_multi_eps, r, table),
{
    let (out, table) = compose_with_state_table(fst1, fst2, keep_multi_eps);
    out
}

/// With the multi-epsilon relabelling, the product arc of an epsilon-only
/// step is never an epsilon:epsilon arc where the arc that moves carries a
/// genuine label.
pub proof fn lemma_multi_eps_step_keeps_genuine_label<W: Semiring>(
    f1: VectorFst<W>,
    f2: VectorFst<W>,
    src: ComposeStateTuple,
    i1: int,
    i2: int,
    a: Arc<W>,
    dst: ComposeStateTuple,
)
    requires
        is_product_step(f1, f2, true, src, i1, i2, a, dst),
        i1 == -1 || i2 == -1,
        i2 == -1 ==> (f1.states@[src.s1 as int].arcs@[i1].ilabel != EPS_LABEL
            || f1.states@[src.s1 as int].arcs@[i1].olabel != EPS_LABEL),
        i1 == -1 ==> (f2.states@[src.s2 as int].arcs@[i2].ilabel != EPS_LABEL
            || f2.states@[src.s2 as int].arcs@[i2].olabel != EPS_LABEL),
    ensures
        !(a.ilabel == EPS_LABEL && a.olabel == EPS_LABEL),
{
}

} // verus!
