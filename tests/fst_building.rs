use rustfst::fst::{transducer as transducer_zero, Arc, ExpandedFst, Fst, FstError, VectorFst};
use rustfst::plus_mapper::{FinalArc, MapFinalAction, PlusMapper};
use rustfst::semiring::{Semiring, TropicalWeight};
use rustfst::utils::{acceptor, transducer};

fn w(v: u64) -> TropicalWeight {
    TropicalWeight::new(v)
}

#[test]
fn add_state_and_arcs() {
    let mut f: VectorFst<TropicalWeight> = VectorFst::new();
    assert_eq!(f.num_states(), 0);
    assert_eq!(f.start(), None);
    let s0 = f.add_state();
    let s1 = f.add_state();
    assert_eq!((s0, s1), (0, 1));
    assert_eq!(f.set_start(s0), Ok(()));
    assert_eq!(f.set_start(7), Err(FstError::InvalidState));
    assert_eq!(f.start(), Some(0));
    assert_eq!(f.add_arc(s0, Arc::new(1, 2, w(3), s1)), Ok(()));
    assert_eq!(f.add_arc(s0, Arc::new(1, 2, w(3), 5)), Err(FstError::InvalidState));
    assert_eq!(f.add_arc(9, Arc::new(1, 2, w(3), s1)), Err(FstError::InvalidState));
    assert_eq!(f.num_arcs(s0), 1);
    assert_eq!(f.num_arcs(s1), 0);
    assert_eq!(f.num_arcs(4), 0);
    assert!(!f.is_final(s1));
    assert_eq!(f.set_final(s1, w(4)), Ok(()));
    assert_eq!(f.set_final(2, w(4)), Err(FstError::InvalidState));
    assert!(f.is_final(s1));
    assert_eq!(f.final_weight(s1), Some(w(4)));
    assert_eq!(f.final_weight(s0), None);
    assert_eq!(f.final_weight(3), None);
}

#[test]
fn transducer_pads_shorter_side() {
    let f: VectorFst<TropicalWeight> = transducer(vec![32, 43, 21], vec![53, 18]);
    assert_eq!(f.num_states(), 4);
    assert_eq!(f.start(), Some(0));
    let expected = [(32, 53), (43, 18), (21, 0)];
    for (k, (i, o)) in expected.iter().enumerate() {
        assert_eq!(f.states[k].arcs.len(), 1);
        let a = &f.states[k].arcs[0];
        assert_eq!((a.ilabel, a.olabel, a.weight, a.nextstate), (*i, *o, TropicalWeight::one(), k + 1));
        assert_eq!(f.final_weight(k), None);
    }
    assert_eq!(f.final_weight(3), Some(TropicalWeight::one()));
    assert_eq!(f.num_arcs(3), 0);
}

#[test]
fn transducer_with_zero_weights() {
    let f: VectorFst<TropicalWeight> = transducer_zero(vec![1], vec![2, 3]);
    assert_eq!(f.num_states(), 3);
    assert_eq!(f.states[0].arcs[0].weight, TropicalWeight::zero());
    assert_eq!((f.states[1].arcs[0].ilabel, f.states[1].arcs[0].olabel), (0, 3));
    assert_eq!(f.final_weight(2), Some(TropicalWeight::one()));
}

#[test]
fn acceptor_repeats_labels() {
    let f: VectorFst<TropicalWeight> = acceptor(vec![32, 43, 21]);
    assert_eq!(f.num_states(), 4);
    for (k, l) in [32usize, 43, 21].iter().enumerate() {
        let a = &f.states[k].arcs[0];
        assert_eq!((a.ilabel, a.olabel, a.nextstate), (*l, *l, k + 1));
    }
    assert_eq!(f.final_weight(3), Some(TropicalWeight::one()));
    let empty: VectorFst<TropicalWeight> = acceptor(vec![]);
    assert_eq!(empty.num_states(), 1);
    assert_eq!(empty.final_weight(0), Some(TropicalWeight::one()));
}

#[test]
fn add_fst_shifts_states() {
    let mut f: VectorFst<TropicalWeight> = acceptor(vec![1]);
    let g: VectorFst<TropicalWeight> = acceptor(vec![7, 8]);
    let mapping = f.add_fst(&g);
    assert_eq!(mapping, vec![2, 3, 4]);
    assert_eq!(f.num_states(), 5);
    assert_eq!(f.start(), Some(0));
    assert_eq!(f.states[2].arcs[0].ilabel, 7);
    assert_eq!(f.states[2].arcs[0].nextstate, 3);
    assert_eq!(f.states[3].arcs[0].nextstate, 4);
    assert_eq!(f.num_arcs(4), 0);
    assert_eq!(f.final_weight(4), None);
    assert_eq!(f.final_weight(1), Some(TropicalWeight::one()));
}

#[test]
fn plus_mapper_adds_with_plus() {
    let mut mapper = PlusMapper::new(w(4));
    let mut weight = w(9);
    mapper.map_weight(&mut weight);
    assert_eq!(weight, w(4));
    let mut arc = Arc::new(1, 2, w(2), 3);
    mapper.arc_map(&mut arc);
    assert_eq!((arc.ilabel, arc.olabel, arc.weight, arc.nextstate), (1, 2, w(2), 3));
    let mut arc = Arc::new(1, 2, w(20), 3);
    mapper.arc_map(&mut arc);
    assert_eq!(arc.weight, w(4));
    let mut fa = FinalArc { ilabel: 0, olabel: 0, weight: TropicalWeight::zero() };
    mapper.final_arc_map(&mut fa);
    assert_eq!(fa.weight, w(4));
    assert_eq!(mapper.final_action(), MapFinalAction::MapNoSuperfinal);
}

#[test]
fn del_state_renumbers_and_drops_arcs() {
    let mut f: VectorFst<TropicalWeight> = VectorFst::new();
    for _ in 0..3 {
        f.add_state();
    }
    f.set_start(2).unwrap();
    f.add_arc(0, Arc::new(1, 1, w(1), 1)).unwrap();
    f.add_arc(0, Arc::new(2, 2, w(2), 2)).unwrap();
    f.add_arc(2, Arc::new(3, 3, w(3), 0)).unwrap();
    f.add_arc(1, Arc::new(4, 4, w(4), 2)).unwrap();
    f.set_final(2, w(9)).unwrap();
    assert_eq!(f.del_state(5), Err(FstError::InvalidState));
    assert_eq!(f.num_states(), 3);
    assert_eq!(f.del_state(1), Ok(()));
    assert_eq!(f.num_states(), 2);
    assert_eq!(f.start(), Some(1));
    assert_eq!(f.num_arcs(0), 1);
    let a = &f.states[0].arcs[0];
    assert_eq!((a.ilabel, a.nextstate, a.weight), (2, 1, w(2)));
    assert_eq!(f.states[1].arcs[0].nextstate, 0);
    assert_eq!(f.final_weight(1), Some(w(9)));
    assert_eq!(f.del_state(1), Ok(()));
    assert_eq!(f.start(), None);
    assert_eq!(f.num_states(), 1);
    assert_eq!(f.num_arcs(0), 0);
}

#[test]
fn get_arc_reads_arcs_in_order() {
    let f: VectorFst<TropicalWeight> = acceptor(vec![5, 6]);
    assert_eq!(f.get_arc(0, 0).ilabel, 5);
    assert_eq!(f.get_arc(1, 0).olabel, 6);
    assert_eq!(f.get_arc(1, 0).nextstate, 2);
}
