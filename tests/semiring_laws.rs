use rustfst::semiring::{BooleanWeight, Semiring, TropicalWeight, TROPICAL_INFINITY};

fn tropical_samples() -> Vec<TropicalWeight> {
    vec![
        TropicalWeight::new(0),
        TropicalWeight::new(3),
        TropicalWeight::new(17),
        TropicalWeight::new(TROPICAL_INFINITY - 1),
        TropicalWeight::new(TROPICAL_INFINITY),
    ]
}

#[test]
fn tropical_semiring_laws_on_samples() {
    let zero = TropicalWeight::zero();
    let one = TropicalWeight::one();
    for a in tropical_samples() {
        assert_eq!(a.plus(&zero), a);
        assert_eq!(a.times(&one), a);
        assert_eq!(a.times(&zero), zero);
        for b in tropical_samples() {
            assert_eq!(a.plus(&b), b.plus(&a));
            for c in tropical_samples() {
                assert_eq!(a.times(&b).times(&c), a.times(&b.times(&c)));
                assert_eq!(a.plus(&b).plus(&c), a.plus(&b.plus(&c)));
                assert_eq!(a.times(&b.plus(&c)), a.times(&b).plus(&a.times(&c)));
            }
        }
    }
}

#[test]
fn tropical_values() {
    let a = TropicalWeight::new(5);
    let b = TropicalWeight::new(10);
    assert_eq!(a.plus(&b), TropicalWeight::new(5));
    assert_eq!(a.times(&b), TropicalWeight::new(15));
    assert!(TropicalWeight::zero().is_infinity());
    assert_eq!(TropicalWeight::one(), TropicalWeight::new(0));
    let big = TropicalWeight::new(TROPICAL_INFINITY - 2);
    assert_eq!(big.times(&TropicalWeight::new(5)), TropicalWeight::zero());
    let mut w = TropicalWeight::new(8);
    w.plus_assign(&TropicalWeight::new(6));
    assert_eq!(w, TropicalWeight::new(6));
    w.times_assign(&TropicalWeight::new(6));
    assert_eq!(w, TropicalWeight::new(12));
}

#[test]
fn boolean_semiring_laws_on_samples() {
    let samples = vec![BooleanWeight::new(false), BooleanWeight::new(true)];
    let zero = BooleanWeight::zero();
    let one = BooleanWeight::one();
    assert_eq!(zero, BooleanWeight::new(false));
    assert_eq!(one, BooleanWeight::new(true));
    for a in samples.iter() {
        assert_eq!(a.plus(&zero), *a);
        assert_eq!(a.times(&one), *a);
        assert_eq!(a.times(&zero), zero);
        for b in samples.iter() {
            assert_eq!(a.plus(b), b.plus(a));
            for c in samples.iter() {
                assert_eq!(a.times(b).times(c), a.times(&b.times(c)));
            }
        }
    }
    assert_eq!(BooleanWeight::new(true).plus(&BooleanWeight::new(false)), BooleanWeight::new(true));
    assert_eq!(BooleanWeight::new(true).times(&BooleanWeight::new(false)), BooleanWeight::new(false));
}

#[test]
fn exact_weights_are_members_and_their_own_quantization() {
    for a in tropical_samples() {
        assert!(a.is_member());
        assert_eq!(a.quantize(), a);
    }
    assert!(BooleanWeight::new(false).is_member());
    assert_eq!(BooleanWeight::new(true).quantize(), BooleanWeight::new(true));
}
