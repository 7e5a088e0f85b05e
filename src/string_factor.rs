use vstd::prelude::*;

use crate::Label;

verus! {

/// The value of a string weight: a sequence of labels, or the infinite
/// string that stands for the zero of the string semirings.
#[derive(Clone, Debug)]
pub enum StringWeightVariant {
    Infinity,
    Labels(Vec<Label>),
}

/// The labels of `v`; the empty sequence for infinity.
pub open spec fn variant_labels(v: StringWeightVariant) -> Seq<Label> {
    match v {
        StringWeightVariant::Infinity => Seq::empty(),
        StringWeightVariant::Labels(l) => l@,
    }
}

/// A factor iterator over `v` is exhausted from the start where `v` is
/// infinite or holds at most one label.
pub open spec fn factor_done_at_start(v: StringWeightVariant) -> bool {
    match v {
        StringWeightVariant::Infinity => true,
        StringWeightVariant::Labels(l) => l@.len() <= 1,
    }
}

fn variant_done_at_start(v: &StringWeightVariant) -> (r: bool)
    ensures
        r == factor_done_at_start(*v),
{
    match v {
        StringWeightVariant::Infinity => true,
        StringWeightVariant::Labels(l) => l.len() <= 1,
    }
}

/// The first label of `v` and the labels after it.
fn split_first(v: &StringWeightVariant) -> (r: (Vec<Label>, Vec<Label>))
    requires
        variant_labels(*v).len() >= 1,
    ensures
        r.0@ == seq![variant_labels(*v)[0]],
        r.1@ == variant_labels(*v).drop_first(),
{
    match v {
        StringWeightVariant::Infinity => (Vec::new(), Vec::new()),
        StringWeightVariant::Labels(l) => {
            let mut first: Vec<Label> = Vec::new();
            first.push(l[0]);
            let mut rest: Vec<Label> = Vec::new();
            let mut k: usize = 1;
            while k < l.len()
                invariant
                    1 <= k <= l@.len(),
                    rest@ == l@.subrange(1, k as int),
                decreases l@.len() - k,
            {
                rest.push(l[k]);
                proof {
                    assert(rest@ =~= l@.subrange(1, k + 1));
                }
                k = k + 1;
            }
            proof {
                assert(rest@ =~= l@.drop_first());
            }
            (first, rest)
        },
    }
}

/// A string weight of the left string semiring.
#[derive(Clone, Debug)]
pub struct StringWeightLeft {
    pub value: StringWeightVariant,
}

impl StringWeightLeft {
    pub fn from_labels(labels: Vec<Label>) -> (r: Self)
        ensures
            r.value == StringWeightVariant::Labels(labels),
    {
        StringWeightLeft { value: StringWeightVariant::Labels(labels) }
    }

    pub fn infinity() -> (r: Self)
        ensures
            r.value == StringWeightVariant::Infinity,
    {
        StringWeightLeft { value: StringWeightVariant::Infinity }
    }
}

/// Splits a left string weight of two or more labels into its first label
/// and the rest, once.
pub struct StringFactorLeft {
    pub weight: StringWeightLeft,
    pub done: bool,
}

impl StringFactorLeft {
    pub fn new(weight: StringWeightLeft) -> (r: Self)
        ensures
            r.weight == weight,
            r.done == factor_done_at_start(weight.value),
    {
        let done = variant_done_at_start(&weight.value);
        StringFactorLeft { weight, done }
    }

    pub fn done(&self) -> (r: bool)
        ensures
            r == self.done,
    {
        self.done
    }

    /// The first label and the rest, on the first call of an iterator that is
    /// not exhausted; `None` afterwards.
    pub fn next(&mut self) -> (r: Option<(StringWeightLeft, StringWeightLeft)>)
        requires
            !old(self).done ==> variant_labels(old(self).weight.value).len() >= 1,
        ensures
            final(self).weight == old(self).weight,
            final(self).done,
            old(self).done ==> r is None,
            !old(self).done ==> r is Some
                && r.unwrap().0.value == StringWeightVariant::Labels(
                    r.unwrap().0.value->Labels_0,
                ) && (r.unwrap().0.value->Labels_0)@ == seq![variant_labels(old(self).weight.value)[0]]
                && r.unwrap().1.value == StringWeightVariant::Labels(r.unwrap().1.value->Labels_0)
                && (r.unwrap().1.value->Labels_0)@ == variant_labels(old(self).weight.value).drop_first(),
    {
        if self.done {
            return None;
        }
        let (first, rest) = split_first(&self.weight.value);
        self.done = true;
        Some((StringWeightLeft::from_labels(first), StringWeightLeft::from_labels(rest)))
    }
}

/// A string weight of the right string semiring.
#[derive(Clone, Debug)]
pub struct StringWeightRight {
    pub value: StringWeightVariant,
}

impl StringWeightRight {
    pub fn from_labels(labels: Vec<Label>) -> (r: Self)
        ensures
            r.value == StringWeightVariant::Labels(labels),
    {
        StringWeightRight { value: StringWeightVariant::Labels(labels) }
    }

    pub fn infinity() -> (r: Self)
        ensures
            r.value == StringWeightVariant::Infinity,
    {
        StringWeightRight { value: StringWeightVariant::Infinity }
    }
}

/// Splits a right string weight of two or more labels into its first label
/// and the rest, once.
pub struct StringFactorRight {
    pub weight: StringWeightRight,
    pub done: bool,
}

impl StringFactorRight {
    pub fn new(weight: StringWeightRight) -> (r: Self)
        ensures
            r.weight == weight,
            r.done == factor_done_at_start(weight.value),
    {
        let done = variant_done_at_start(&weight.value);
        StringFactorRight { weight, done }
    }

    pub fn done(&self) -> (r: bool)
        ensures
            r == self.done,
    {
        self.done
    }

    /// The first label and the rest, on the first call of an iterator that is
    /// not exhausted; `None` afterwards.
    pub fn next(&mut self) -> (r: Option<(StringWeightRight, StringWeightRight)>)
        requires
            !old(self).done ==> variant_labels(old(self).weight.value).len() >= 1,
        ensures
            final(self).weight == old(self).weight,
            final(self).done,
            old(self).done ==> r is None,
            !old(self).done ==> r is Some
                && r.unwrap().0.value == StringWeightVariant::Labels(
                    r.unwrap().0.value->Labels_0,
                ) && (r.unwrap().0.value->Labels_0)@ == seq![variant_labels(old(self).weight.value)[0]]
                && r.unwrap().1.value == StringWeightVariant::Labels(r.unwrap().1.value->Labels_0)
                && (r.unwrap().1.value->Labels_0)@ == variant_labels(old(self).weight.value).drop_first(),
    {
        if self.done {
            return None;
        }
        let (first, rest) = split_first(&self.weight.value);
        self.done = true;
        Some((StringWeightRight::from_labels(first), StringWeightRight::from_labels(rest)))
    }
}

/// A string weight of the restricted string semiring.
#[derive(Clone, Debug)]
pub struct StringWeightRestrict {
    pub value: StringWeightVariant,
}

impl StringWeightRestrict {
    pub fn from_labels(labels: Vec<Label>) -> (r: Self)
        ensures
            r.value == StringWeightVariant::Labels(labels),
    {
        StringWeightRestrict { value: StringWeightVariant::Labels(labels) }
    }

    pub fn infinity() -> (r: Self)
        ensures
            r.value == StringWeightVariant::Infinity,
    {
        StringWeightRestrict { value: StringWeightVariant::Infinity }
    }
}

/// Splits a restricted string weight of two or more labels into its first label
/// and the rest, once.
pub struct StringFactorRestrict {
    pub weight: StringWeightRestrict,
    pub done: bool,
}

impl StringFactorRestrict {
    pub fn new(weight: StringWeightRestrict) -> (r: Self)
        ensures
            r.weight == weight,
            r.done == factor_done_at_start(weight.value),
    {
        let done = variant_done_at_start(&weight.value);
        StringFactorRestrict { weight, done }
    }

    pub fn done(&self) -> (r: bool)
        ensures
            r == self.done,
    {
        self.done
    }

    /// The first label and the rest, on the first call of an iterator that is
    /// not exhausted; `None` afterwards.
    pub fn next(&mut self) -> (r: Option<(StringWeightRestrict, StringWeightRestrict)>)
        requires
            !old(self).done ==> variant_labels(old(self).weight.value).len() >= 1,
        ensures
            final(self).weight == old(self).weight,
            final(self).done,
            old(self).done ==> r is None,
            !old(self).done ==> r is Some
                && r.unwrap().0.value == StringWeightVariant::Labels(
                    r.unwrap().0.value->Labels_0,
                ) && (r.unwrap().0.value->Labels_0)@ == seq![variant_labels(old(self).weight.value)[0]]
                && r.unwrap().1.value == StringWeightVariant::Labels(r.unwrap().1.value->Labels_0)
                && (r.unwrap().1.value->Labels_0)@ == variant_labels(old(self).weight.value).drop_first(),
    {
        if self.done {
            return None;
        }
        let (first, rest) = split_first(&self.weight.value);
        self.done = true;
        Some((StringWeightRestrict::from_labels(first), StringWeightRestrict::from_labels(rest)))
    }
}

} // verus!
