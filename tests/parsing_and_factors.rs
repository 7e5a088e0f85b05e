use rustfst::parsers::{num, word, NomCustomError, ParseErrorKind};
use rustfst::string_factor::{
    StringFactorLeft, StringFactorRestrict, StringFactorRight, StringWeightLeft,
    StringWeightRestrict, StringWeightRight, StringWeightVariant,
};

fn labels(v: &StringWeightVariant) -> Vec<usize> {
    match v {
        StringWeightVariant::Labels(l) => l.clone(),
        StringWeightVariant::Infinity => panic!("infinite string"),
    }
}

#[test]
fn num_reads_leading_digits() {
    match num(b"1234 rest") {
        Ok((len, value)) => assert_eq!((len, value), (4, 1234)),
        Err(e) => panic!("{:?}", e),
    }
    match num(b"7") {
        Ok(r) => assert_eq!(r, (1, 7)),
        Err(e) => panic!("{:?}", e),
    }
    assert!(matches!(num(b"abc"), Err(NomCustomError::Nom(0, ParseErrorKind::Digit))));
    assert!(matches!(num(b""), Err(NomCustomError::Nom(0, ParseErrorKind::Digit))));
    assert!(matches!(
        num(b"99999999999999999999999"),
        Err(NomCustomError::Nom(0, ParseErrorKind::MapRes))
    ));
    let max = format!("{}", usize::MAX);
    match num(max.as_bytes()) {
        Ok(r) => assert_eq!(r, (max.len(), usize::MAX)),
        Err(e) => panic!("{:?}", e),
    }
}

#[test]
fn word_stops_at_separators() {
    assert_eq!(word(b"hello world"), 5);
    assert_eq!(word(b"tab\tsep"), 3);
    assert_eq!(word(b"line\nnext"), 4);
    assert_eq!(word(b"whole"), 5);
    assert_eq!(word(b" lead"), 0);
    assert_eq!(word(b""), 0);
}

#[test]
fn parse_errors_keep_first() {
    let e = NomCustomError::from_error_kind(3, ParseErrorKind::Digit);
    assert!(matches!(e, NomCustomError::Nom(3, ParseErrorKind::Digit)));
    let kept = NomCustomError::append(5, ParseErrorKind::MapRes, NomCustomError::SymbolTableError("bad".to_string()));
    assert!(matches!(kept, NomCustomError::SymbolTableError(ref s) if s == "bad"));
}

#[test]
fn string_factor_left_splits_once() {
    let mut it = StringFactorLeft::new(StringWeightLeft::from_labels(vec![1, 2, 3]));
    assert!(!it.done());
    let (a, b) = it.next().unwrap();
    assert_eq!(labels(&a.value), vec![1]);
    assert_eq!(labels(&b.value), vec![2, 3]);
    assert!(it.done());
    assert!(it.next().is_none());
}

#[test]
fn string_factor_right_and_restrict() {
    let mut it = StringFactorRight::new(StringWeightRight::from_labels(vec![4, 5]));
    let (a, b) = it.next().unwrap();
    assert_eq!((labels(&a.value), labels(&b.value)), (vec![4], vec![5]));
    let mut it = StringFactorRestrict::new(StringWeightRestrict::from_labels(vec![6, 7, 8]));
    let (a, b) = it.next().unwrap();
    assert_eq!((labels(&a.value), labels(&b.value)), (vec![6], vec![7, 8]));
    assert!(it.next().is_none());
}

#[test]
fn string_factor_done_on_short_or_infinite() {
    assert!(StringFactorLeft::new(StringWeightLeft::infinity()).done());
    assert!(StringFactorLeft::new(StringWeightLeft::from_labels(vec![9])).done());
    assert!(StringFactorRight::new(StringWeightRight::from_labels(vec![])).done());
    let mut it = StringFactorRestrict::new(StringWeightRestrict::infinity());
    assert!(it.next().is_none());
}

#[test]
fn num_on_digits_then_text() {
    match num(b"123 abc") {
        Ok(r) => assert_eq!(r, (3, 123)),
        Err(e) => panic!("{:?}", e),
    }
    assert!(num(b"abc").is_err());
    assert!(num(b"").is_err());
}
