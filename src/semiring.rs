use vstd::prelude::*;

verus! {

/// The algebraic contract of a weight type: `plus` with identity `zero`,
/// `times` with identity `one`.  The spec functions give the exact value of
/// each operation, and `lemma_semiring_laws` states the laws that every
/// implementation proves.
pub trait Semiring: Sized {
    spec fn zero_spec() -> Self;

    spec fn one_spec() -> Self;

    spec fn plus_spec(a: Self, b: Self) -> Self;

    spec fn times_spec(a: Self, b: Self) -> Self;

    fn zero() -> (r: Self)
        ensures
            r == Self::zero_spec(),
    ;

    fn one() -> (r: Self)
        ensures
            r == Self::one_spec(),
    ;

    fn plus(&self, rhs: &Self) -> (r: Self)
        ensures
            r == Self::plus_spec(*self, *rhs),
    ;

    fn times(&self, rhs: &Self) -> (r: Self)
        ensures
            r == Self::times_spec(*self, *rhs),
    ;

    fn plus_assign(&mut self, rhs: &Self)
        ensures
            *final(self) == Self::plus_spec(*old(self), *rhs),
    ;

    fn times_assign(&mut self, rhs: &Self)
        ensures
            *final(self) == Self::times_spec(*old(self), *rhs),
    ;

    /// Whether `w` is a valid value of the semiring.
    spec fn member_spec(w: Self) -> bool;

    /// The canonical representative of `w`, the one that equality and hashing
    /// go by.
    spec fn quantize_spec(w: Self) -> Self;

    fn is_member(&self) -> (r: bool)
        ensures
            r == Self::member_spec(*self),
    ;

    fn quantize(&self) -> (r: Self)
        ensures
            r == Self::quantize_spec(*self),
    ;

    /// A copy of the weight, equal to it.
    fn duplicate(&self) -> (r: Self)
        ensures
            r == *self,
    ;

    /// The semiring laws: `zero` is the identity of `plus` and annihilates
    /// `times`, `one` is the identity of `times`, `plus` is associative and
    /// commutative, `times` is associative and distributes over `plus`.
    proof fn lemma_semiring_laws(a: Self, b: Self, c: Self)
        ensures
            Self::plus_spec(a, Self::zero_spec()) == a,
            Self::plus_spec(Self::zero_spec(), a) == a,
            Self::times_spec(a, Self::one_spec()) == a,
            Self::times_spec(Self::one_spec(), a) == a,
            Self::times_spec(a, Self::zero_spec()) == Self::zero_spec(),
            Self::times_spec(Self::zero_spec(), a) == Self::zero_spec(),
            Self::plus_spec(a, b) == Self::plus_spec(b, a),
            Self::plus_spec(Self::plus_spec(a, b), c) == Self::plus_spec(a, Self::plus_spec(b, c)),
            Self::times_spec(Self::times_spec(a, b), c) == Self::times_spec(a, Self::times_spec(b, c)),
            Self::times_spec(a, Self::plus_spec(b, c)) == Self::plus_spec(
                Self::times_spec(a, b),
                Self::times_spec(a, c),
            ),
            Self::times_spec(Self::plus_spec(a, b), c) == Self::plus_spec(
                Self::times_spec(a, c),
                Self::times_spec(b, c),
            ),
    ;
}

/// The largest `u64` stands for infinity, the zero of the tropical semiring.
pub const TROPICAL_INFINITY: u64 = 0xffff_ffff_ffff_ffff;

/// The tropical semiring over `u64`: `plus` is the minimum, `times` is the
/// sum saturated at infinity, `zero` is infinity and `one` is `0`.
#[derive(PartialEq, Eq, Structural, Clone, Copy, Debug)]
pub struct TropicalWeight {
    pub value: u64,
}

pub open spec fn tropical_sum(a: u64, b: u64) -> u64 {
    if a as int + b as int >= TROPICAL_INFINITY as int {
        TROPICAL_INFINITY
    } else {
        (a + b) as u64
    }
}

impl TropicalWeight {
    pub fn new(value: u64) -> (r: Self)
        ensures
            r.value == value,
    {
        TropicalWeight { value }
    }

    pub fn is_infinity(&self) -> (r: bool)
        ensures
            r == (self.value == TROPICAL_INFINITY),
    {
        self.value == TROPICAL_INFINITY
    }
}

impl Semiring for TropicalWeight {
    /// Every value is a member.
    open spec fn member_spec(w: Self) -> bool {
        true
    }

    /// The values are exact: each is its own representative.
    open spec fn quantize_spec(w: Self) -> Self {
        w
    }

    fn is_member(&self) -> (r: bool) {
        true
    }

    fn quantize(&self) -> (r: Self) {
        *self
    }

    open spec fn zero_spec() -> Self {
        TropicalWeight { value: TROPICAL_INFINITY }
    }

    open spec fn one_spec() -> Self {
        TropicalWeight { value: 0 }
    }

    open spec fn plus_spec(a: Self, b: Self) -> Self {
        if a.value <= b.value {
            a
        } else {
            b
        }
    }

    open spec fn times_spec(a: Self, b: Self) -> Self {
        TropicalWeight { value: tropical_sum(a.value, b.value) }
    }

    fn zero() -> (r: Self) {
        TropicalWeight { value: TROPICAL_INFINITY }
    }

    fn one() -> (r: Self) {
        TropicalWeight { value: 0 }
    }

    fn plus(&self, rhs: &Self) -> (r: Self) {
        if self.value <= rhs.value {
            *self
        } else {
            *rhs
        }
    }

    fn times(&self, rhs: &Self) -> (r: Self) {
        if self.value >= TROPICAL_INFINITY - rhs.value {
            TropicalWeight { value: TROPICAL_INFINITY }
        } else {
            TropicalWeight { value: self.value + rhs.value }
        }
    }

    fn plus_assign(&mut self, rhs: &Self) {
        *self = self.plus(rhs);
    }

    fn times_assign(&mut self, rhs: &Self) {
        *self = self.times(rhs);
    }

    fn duplicate(&self) -> (r: Self) {
        *self
    }

    proof fn lemma_semiring_laws(a: Self, b: Self, c: Self) {
    }
}

/// The boolean semiring: `plus` is `or`, `times` is `and`, `zero` is
/// `false` and `one` is `true`.
#[derive(PartialEq, Eq, Structural, Clone, Copy, Debug)]
pub struct BooleanWeight {
    pub value: bool,
}

impl BooleanWeight {
    pub fn new(value: bool) -> (r: Self)
        ensures
            r.value == value,
    {
        BooleanWeight { value }
    }
}

impl Semiring for BooleanWeight {
    /// Every value is a member.
    open spec fn member_spec(w: Self) -> bool {
        true
    }

    /// The values are exact: each is its own representative.
    open spec fn quantize_spec(w: Self) -> Self {
        w
    }

    fn is_member(&self) -> (r: bool) {
        true
    }

    fn quantize(&self) -> (r: Self) {
        *self
    }

    open spec fn zero_spec() -> Self {
        BooleanWeight { value: false }
    }

    open spec fn one_spec() -> Self {
        BooleanWeight { value: true }
    }

    open spec fn plus_spec(a: Self, b: Self) -> Self {
        BooleanWeight { value: a.value || b.value }
    }

    open spec fn times_spec(a: Self, b: Self) -> Self {
        BooleanWeight { value: a.value && b.value }
    }

    fn zero() -> (r: Self) {
        BooleanWeight { value: false }
    }

    fn one() -> (r: Self) {
        BooleanWeight { value: true }
    }

    fn plus(&self, rhs: &Self) -> (r: Self) {
        BooleanWeight { value: self.value || rhs.value }
    }

    fn times(&self, rhs: &Self) -> (r: Self) {
        BooleanWeight { value: self.value && rhs.value }
    }

    fn plus_assign(&mut self, rhs: &Self) {
        *self = self.plus(rhs);
    }

    fn times_assign(&mut self, rhs: &Self) {
        *self = self.times(rhs);
    }

    fn duplicate(&self) -> (r: Self) {
        *self
    }

    proof fn lemma_semiring_laws(a: Self, b: Self, c: Self) {
    }
}

} // verus!
