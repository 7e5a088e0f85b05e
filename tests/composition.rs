use rustfst::compose::{compose, compose_with_state_table};
use rustfst::compose_filter::{FilterState, MultiEpsFilter, SequenceComposeFilter};
use rustfst::fst::{Arc, ExpandedFst, Fst, VectorFst};
use rustfst::matcher::{ArcMatcher, MatchType};
use rustfst::semiring::{Semiring, TropicalWeight};
use rustfst::{EPS_LABEL, NO_LABEL};

fn w(v: u64) -> TropicalWeight {
    TropicalWeight::new(v)
}

/// A two-state automaton with one arc `i:o/weight` from the start state to a
/// final state of weight `one`.
fn single_arc(i: usize, o: usize, weight: u64) -> VectorFst<TropicalWeight> {
    let mut f = VectorFst::new();
    let s0 = f.add_state();
    let s1 = f.add_state();
    f.set_start(s0).unwrap();
    f.add_arc(s0, Arc::new(i, o, w(weight), s1)).unwrap();
    f.set_final(s1, TropicalWeight::one()).unwrap();
    f
}

/// Every path from the start state to a final state, as its label pairs and
/// its total weight, for an automaton without cycles.
fn paths(f: &VectorFst<TropicalWeight>) -> Vec<(Vec<(usize, usize)>, TropicalWeight)> {
    fn walk(
        f: &VectorFst<TropicalWeight>,
        s: usize,
        labels: &mut Vec<(usize, usize)>,
        weight: TropicalWeight,
        out: &mut Vec<(Vec<(usize, usize)>, TropicalWeight)>,
    ) {
        if let Some(fw) = f.final_weight(s) {
            out.push((labels.clone(), weight.times(&fw)));
        }
        for a in f.states[s].arcs.iter() {
            labels.push((a.ilabel, a.olabel));
            walk(f, a.nextstate, labels, weight.times(&a.weight), out);
            labels.pop();
        }
    }
    let mut out = Vec::new();
    if let Some(s) = f.start() {
        walk(f, s, &mut Vec::new(), TropicalWeight::one(), &mut out);
    }
    out
}

#[test]
fn tropical_weights_multiply_along_the_match() {
    let a = single_arc(1, 2, 5);
    let b = single_arc(2, 3, 10);
    let c = compose(&a, &b, false);
    assert_eq!(c.num_states(), 2);
    assert_eq!(c.start(), Some(0));
    assert_eq!(c.num_arcs(0), 1);
    let arc = &c.states[0].arcs[0];
    assert_eq!((arc.ilabel, arc.olabel, arc.weight), (1, 3, w(15)));
    assert_eq!(c.final_weight(arc.nextstate), Some(w(0)));
    assert_eq!(c.final_weight(0), None);
    assert_eq!(paths(&c), vec![(vec![(1, 3)], w(15))]);
}

#[test]
fn string_chain_through_shared_symbol() {
    let (sym_a, sym_b, sym_c) = (1, 2, 3);
    let a = single_arc(sym_a, sym_b, 3);
    let b = single_arc(sym_b, sym_c, 4);
    let c = compose(&a, &b, false);
    assert_eq!(paths(&c), vec![(vec![(sym_a, sym_c)], w(3).times(&w(4)))]);
    let other = single_arc(sym_c, sym_a, 4);
    let none = compose(&a, &other, false);
    assert_eq!(paths(&none), vec![]);
    assert_eq!(none.num_states(), 1);
}

#[test]
fn missing_start_gives_empty_product() {
    let a: VectorFst<TropicalWeight> = VectorFst::new();
    let b = single_arc(1, 1, 0);
    let c = compose(&a, &b, false);
    assert_eq!(c.num_states(), 0);
    assert_eq!(c.start(), None);
}

#[test]
fn epsilon_loop_composed_with_itself_stays_bounded() {
    let mut a = VectorFst::new();
    let s0 = a.add_state();
    let s1 = a.add_state();
    a.set_start(s0).unwrap();
    a.add_arc(s0, Arc::new(EPS_LABEL, EPS_LABEL, w(1), s0)).unwrap();
    a.add_arc(s0, Arc::new(1, 1, w(2), s1)).unwrap();
    a.set_final(s1, w(0)).unwrap();
    let (c, table) = compose_with_state_table(&a, &a, false);
    assert!(c.num_states() <= 2 * 2 * 3);
    assert_eq!(c.num_states(), 4);
    assert_eq!(table.len(), 4);
    for j in 0..table.len() {
        for k in 0..table.len() {
            if j != k {
                assert_ne!(table.find_tuple(j), table.find_tuple(k));
            }
        }
    }
    // The start state has an epsilon-epsilon loop, one epsilon-only step on
    // each side and the real symbol.
    assert_eq!(c.num_arcs(0), 4);
    let eps_only = (0..c.num_states())
        .filter(|s| {
            let t = table.find_tuple(*s);
            t.fs == FilterState::Only1MayEps || t.fs == FilterState::Only2MayEps
        })
        .count();
    assert_eq!(eps_only, 2);
}

#[test]
fn composition_with_epsilon_identity() {
    let mut a = VectorFst::new();
    let s0 = a.add_state();
    let s1 = a.add_state();
    a.set_start(s0).unwrap();
    a.add_arc(s0, Arc::new(1, EPS_LABEL, w(2), s1)).unwrap();
    a.set_final(s1, w(0)).unwrap();
    let mut id = VectorFst::new();
    let q = id.add_state();
    id.set_start(q).unwrap();
    id.set_final(q, TropicalWeight::one()).unwrap();
    id.add_arc(q, Arc::new(EPS_LABEL, EPS_LABEL, TropicalWeight::one(), q)).unwrap();
    let c = compose(&a, &id, false);
    let start = c.start().unwrap();
    let mut best = TropicalWeight::zero();
    for arc in c.states[start].arcs.iter() {
        if arc.ilabel == 1 {
            assert_eq!(arc.olabel, EPS_LABEL);
            assert_eq!(arc.weight, w(2));
            if let Some(fw) = c.final_weight(arc.nextstate) {
                best = best.plus(&arc.weight.times(&fw));
            }
        }
    }
    assert_eq!(best, w(2));
}

#[test]
fn product_state_keys_are_unique() {
    let a = single_arc(1, 2, 5);
    let b = single_arc(2, 3, 10);
    let (c, table) = compose_with_state_table(&a, &b, false);
    assert_eq!(table.len(), c.num_states());
    let t0 = table.find_tuple(0);
    assert_eq!((t0.s1, t0.s2, t0.fs), (0, 0, FilterState::BothMayEps));
    let t1 = table.find_tuple(1);
    assert_eq!((t1.s1, t1.s2, t1.fs), (1, 1, FilterState::BothMayEps));
}

#[test]
fn sequence_filter_decisions() {
    let mut f = SequenceComposeFilter::new();
    assert_eq!(f.start(), FilterState::BothMayEps);
    let real1 = Arc::new(4, 7, w(0), 1);
    let real2 = Arc::new(7, 9, w(0), 1);
    let eps1 = Arc::new(4, EPS_LABEL, w(0), 1);
    let eps2 = Arc::new(EPS_LABEL, 9, w(0), 1);
    let stay1 = Arc::new(EPS_LABEL, NO_LABEL, TropicalWeight::one(), 0);
    let stay2 = Arc::new(NO_LABEL, EPS_LABEL, TropicalWeight::one(), 0);
    f.set_state(0, 0, FilterState::BothMayEps);
    assert_eq!(f.filter_arc(&real1, &real2), FilterState::BothMayEps);
    assert_eq!(f.filter_arc(&eps1, &stay2), FilterState::Only1MayEps);
    assert_eq!(f.filter_arc(&stay1, &eps2), FilterState::Only2MayEps);
    assert_eq!(f.filter_arc(&eps1, &eps2), FilterState::BothMayEps);
    assert_eq!(f.filter_arc(&real1, &eps2), FilterState::Blocked);
    f.set_state(0, 0, FilterState::Only1MayEps);
    assert_eq!(f.filter_arc(&stay1, &eps2), FilterState::Blocked);
    assert_eq!(f.filter_arc(&eps1, &eps2), FilterState::Blocked);
    assert_eq!(f.filter_arc(&eps1, &stay2), FilterState::Only1MayEps);
    assert_eq!(f.filter_arc(&real1, &real2), FilterState::BothMayEps);
    f.set_state(0, 0, FilterState::Only2MayEps);
    assert_eq!(f.filter_arc(&eps1, &stay2), FilterState::Blocked);
    assert_eq!(f.filter_arc(&stay1, &eps2), FilterState::Only2MayEps);
    let mut a = w(3);
    let mut b = w(4);
    f.filter_final(&mut a, &mut b);
    assert_eq!((a, b), (w(3), w(4)));
}

#[test]
fn multi_eps_filter_relabels_staying_side() {
    let mut filter = MultiEpsFilter::new(true);
    assert_eq!(filter.start(), FilterState::BothMayEps);
    filter.set_state(0, 0, FilterState::BothMayEps);
    let mut arc1 = Arc::new(5, EPS_LABEL, w(1), 1);
    let mut arc2 = Arc::new(NO_LABEL, EPS_LABEL, TropicalWeight::one(), 0);
    let fs = filter.filter_arc(&mut arc1, &mut arc2);
    assert_eq!(fs, FilterState::Only1MayEps);
    assert_eq!(arc2.olabel, arc1.olabel);
    assert_eq!((arc1.ilabel, arc2.olabel), (5, EPS_LABEL));

    let mut stay1 = Arc::new(8, NO_LABEL, TropicalWeight::one(), 0);
    let mut arc2 = Arc::new(EPS_LABEL, 6, w(1), 1);
    let fs = filter.filter_arc(&mut stay1, &mut arc2);
    assert_eq!(fs, FilterState::Only2MayEps);
    assert_eq!(stay1.ilabel, EPS_LABEL);

    let plain = MultiEpsFilter::new(false);
    let mut stay1 = Arc::new(8, NO_LABEL, TropicalWeight::one(), 0);
    let mut arc2 = Arc::new(EPS_LABEL, 6, w(1), 1);
    plain.filter_arc(&mut stay1, &mut arc2);
    assert_eq!(stay1.ilabel, 8);
}

#[test]
fn multi_eps_composition_has_no_silent_genuine_steps() {
    let mut a = VectorFst::new();
    let s0 = a.add_state();
    let s1 = a.add_state();
    a.set_start(s0).unwrap();
    a.add_arc(s0, Arc::new(3, EPS_LABEL, w(1), s1)).unwrap();
    a.set_final(s1, w(0)).unwrap();
    let mut b = VectorFst::new();
    let q0 = b.add_state();
    let q1 = b.add_state();
    b.set_start(q0).unwrap();
    b.add_arc(q0, Arc::new(EPS_LABEL, 4, w(1), q1)).unwrap();
    b.set_final(q1, w(0)).unwrap();
    let c = compose(&a, &b, true);
    for s in 0..c.num_states() {
        for arc in c.states[s].arcs.iter() {
            assert!(!(arc.ilabel == EPS_LABEL && arc.olabel == EPS_LABEL));
        }
    }
    assert_eq!(paths(&c), vec![(vec![(3, 4)], w(2))]);
}

#[test]
fn matcher_finds_arcs_by_label() {
    let mut f = VectorFst::new();
    let s0 = f.add_state();
    let s1 = f.add_state();
    f.add_arc(s0, Arc::new(1, 2, w(0), s1)).unwrap();
    f.add_arc(s0, Arc::new(3, 2, w(0), s1)).unwrap();
    f.add_arc(s0, Arc::new(1, 5, w(0), s0)).unwrap();
    let m_in = ArcMatcher::new(&f, MatchType::MatchInput);
    assert_eq!(m_in.match_type(), MatchType::MatchInput);
    assert_eq!(m_in.find(s0, 1), vec![0, 2]);
    assert_eq!(m_in.find(s0, 4), Vec::<usize>::new());
    let m_out = ArcMatcher::new(&f, MatchType::MatchOutput);
    assert_eq!(m_out.find(s0, 2), vec![0, 1]);
    assert_eq!(m_out.find(s1, 2), Vec::<usize>::new());
}

#[test]
fn each_admitted_pair_gives_one_arc() {
    let mut a = VectorFst::new();
    let s0 = a.add_state();
    let s1 = a.add_state();
    a.set_start(s0).unwrap();
    a.add_arc(s0, Arc::new(1, 2, w(1), s1)).unwrap();
    a.add_arc(s0, Arc::new(1, 2, w(1), s1)).unwrap();
    a.set_final(s1, w(0)).unwrap();
    let b = single_arc(2, 3, 2);
    let c = compose(&a, &b, false);
    assert_eq!(c.num_arcs(0), 2);
    assert_eq!(paths(&c), vec![(vec![(1, 3)], w(3)), (vec![(1, 3)], w(3))]);
}
