use vstd::prelude::*;

verus! {

/// Why a parser stopped.
#[derive(PartialEq, Eq, Structural, Clone, Copy, Debug)]
pub enum ParseErrorKind {
    /// No decimal digit where a number was expected.
    Digit,
    /// The digits do not fit in a `usize`.
    MapRes,
}

/// The errors of the text parsers: a symbol table that cannot be read, or a
/// parser that stopped at a position with a kind.
#[derive(Clone, Debug)]
pub enum NomCustomError {
    SymbolTableError(String),
    Nom(usize, ParseErrorKind),
}

impl NomCustomError {
    pub fn from_error_kind(input: usize, kind: ParseErrorKind) -> (r: Self)
        ensures
            r == NomCustomError::Nom(input, kind),
    {
        NomCustomError::Nom(input, kind)
    }

    /// Keeps the error that was already there.
    pub fn append(input: usize, kind: ParseErrorKind, other: Self) -> (r: Self)
        ensures
            r == other,
    {
        other
    }
}

pub open spec fn is_digit(b: u8) -> bool {
    48 <= b <= 57
}

/// The number of decimal digits at the start of `s`.
pub open spec fn digit_prefix_len(s: Seq<u8>) -> nat
    decreases s.len(),
{
    if s.len() > 0 && is_digit(s[0]) {
        1 + digit_prefix_len(s.drop_first())
    } else {
        0
    }
}

/// The value of the decimal digits `s`.
pub open spec fn decimal_value(s: Seq<u8>) -> nat
    decreases s.len(),
{
    if s.len() == 0 {
        0
    } else {
        decimal_value(s.drop_last()) * 10 + (s.last() - 48) as nat
    }
}

pub open spec fn is_separator(b: u8) -> bool {
    b == 32 || b == 9 || b == 10
}

/// The number of bytes at the start of `s` before a space, tab or newline.
pub open spec fn word_prefix_len(s: Seq<u8>) -> nat
    decreases s.len(),
{
    if s.len() > 0 && !is_separator(s[0]) {
        1 + word_prefix_len(s.drop_first())
    } else {
        0
    }
}

proof fn lemma_digit_prefix(s: Seq<u8>, k: int)
    requires
        0 <= k <= s.len(),
        forall|m: int| 0 <= m < k ==> is_digit(#[trigger] s[m]),
    ensures
        k == s.len() || !is_digit(s[k]) ==> digit_prefix_len(s) == k,
        digit_prefix_len(s) >= k,
    decreases k,
{
    if k > 0 {
        lemma_digit_prefix(s.drop_first(), k - 1);
    }
}

proof fn lemma_word_prefix(s: Seq<u8>, k: int)
    requires
        0 <= k <= s.len(),
        forall|m: int| 0 <= m < k ==> !is_separator(#[trigger] s[m]),
    ensures
        k == s.len() || is_separator(s[k]) ==> word_prefix_len(s) == k,
    decreases k,
{
    if k > 0 {
        lemma_word_prefix(s.drop_first(), k - 1);
    }
}

/// Reads the decimal number at the start of `input`; gives the number of
/// digits read and the value.  Fails with `Digit` where `input` does not
/// start with a digit, and with `MapRes` where the value exceeds `usize`.
pub fn num(input: &[u8]) -> (r: Result<(usize, usize), NomCustomError>)
    ensures
        digit_prefix_len(input@) == 0 <==> r == Err::<(usize, usize), NomCustomError>(NomCustomError::Nom(0, ParseErrorKind::Digit)),
        digit_prefix_len(input@) > 0 && decimal_value(input@.take(digit_prefix_len(input@) as int)) > usize::MAX
            <==> r == Err::<(usize, usize), NomCustomError>(NomCustomError::Nom(0, ParseErrorKind::MapRes)),
        digit_prefix_len(input@) > 0 && decimal_value(input@.take(digit_prefix_len(input@) as int)) <= usize::MAX
            ==> r is Ok,
        r is Ok ==> r.unwrap().0 == digit_prefix_len(input@) && r.unwrap().1 == decimal_value(
            input@.take(digit_prefix_len(input@) as int),
        ),
{
    let mut k: usize = 0;
    let mut value: usize = 0;
    let mut overflow = false;
    while k < input.len() && input[k] >= 48 && input[k] <= 57
        invariant
            0 <= k <= input@.len(),
            forall|m: int| 0 <= m < k ==> is_digit(#[trigger] input@[m]),
            !overflow ==> value == decimal_value(input@.take(k as int)),
            overflow ==> decimal_value(input@.take(k as int)) > usize::MAX,
        decreases input@.len() - k,
    {
        let d = (input[k] - 48) as usize;
        proof {
            assert(input@.take(k + 1).drop_last() =~= input@.take(k as int));
            assert(input@.take(k + 1).last() == input@[k as int]);
            if overflow {
                assert(decimal_value(input@.take(k + 1)) >= decimal_value(input@.take(k as int)) * 10);
            }
        }
        if !overflow {
            if value > (usize::MAX - d) / 10 {
                overflow = true;
                proof {
                    assert(decimal_value(input@.take(k + 1)) == value * 10 + d);
                    assert(value * 10 + d > usize::MAX) by (nonlinear_arith)
                        requires
                            value > (usize::MAX - d) / 10,
                            d <= 9,
                    ;
                }
            } else {
                proof {
                    assert(value * 10 + d <= usize::MAX) by (nonlinear_arith)
                        requires
                            value <= (usize::MAX - d) / 10,
                            d <= 9,
                    ;
                }
                value = value * 10 + d;
            }
        }
        k = k + 1;
    }
    proof {
        lemma_digit_prefix(input@, k as int);
    }
    if k == 0 {
        return Err(NomCustomError::from_error_kind(0, ParseErrorKind::Digit));
    }
    if overflow {
        return Err(NomCustomError::from_error_kind(0, ParseErrorKind::MapRes));
    }
    Ok((k, value))
}

/// The length of the word at the start of `input`: the bytes before the
/// first space, tab or newline.
pub fn word(input: &[u8]) -> (r: usize)
    ensures
        r == word_prefix_len(input@),
{
    let mut k: usize = 0;
    while k < input.len() && input[k] != 32 && input[k] != 9 && input[k] != 10
        invariant
            0 <= k <= input@.len(),
            forall|m: int| 0 <= m < k ==> !is_separator(#[trigger] input@[m]),
        decreases input@.len() - k,
    {
        k = k + 1;
    }
    proof {
        lemma_word_prefix(input@, k as int);
    }
    k
}

} // verus!
