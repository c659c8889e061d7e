//! Addition of two `usize` values with the sum rendered as decimal text.
//!
//! [`sum_as_string`] either returns the canonical base-10 text of `a + b`
//! or reports [`SumError::ArithmeticOverflow`] — exactly when the true sum
//! exceeds `usize::MAX`, so a sum is never silently wrapped or truncated.

use vstd::prelude::*;
use crate::decimal::dec_digits;
use crate::decimal::dec_value;
use crate::decimal::lemma_decimal_round_trip;
use crate::decimal::usize_to_decimal;

verus! {

/// The one failure the adder can report: the true sum of the two inputs
/// does not fit in `usize`.
#[derive(Clone, Copy, Debug, PartialEq, Eq, Structural)]
pub enum SumError {
    ArithmeticOverflow,
}

/// The result `sum_as_string` owes on given inputs: the decimal digit
/// string of `a + b` when the sum fits in `usize`, the overflow error
/// otherwise.
pub open spec fn sum_as_string_spec(a: usize, b: usize) -> Result<Seq<char>, SumError> {
    if a + b <= usize::MAX {
        Ok(dec_digits((a + b) as nat))
    } else {
        Err(SumError::ArithmeticOverflow)
    }
}

/// An adder result with the string replaced by its characters.
pub open spec fn result_chars(r: Result<String, SumError>) -> Result<Seq<char>, SumError> {
    match r {
        Ok(s) => Ok(s@),
        Err(e) => Err(e),
    }
}

/// Adds two unsigned integers and formats the sum as decimal text.
///
/// Returns `Ok` with the canonical base-10 digits of `a + b` exactly when
/// the sum fits in `usize`, and `Err(SumError::ArithmeticOverflow)`
/// exactly when it does not.
pub fn sum_as_string(a: usize, b: usize) -> (r: Result<String, SumError>)
    ensures
        result_chars(r) == sum_as_string_spec(a, b),
        r is Ok <==> a + b <= usize::MAX,
        r is Ok ==> r->Ok_0@ == dec_digits((a + b) as nat),
        r is Err ==> r->Err_0 == SumError::ArithmeticOverflow,
{
    if a <= usize::MAX - b {
        Ok(usize_to_decimal(a + b))
    } else {
        Err(SumError::ArithmeticOverflow)
    }
}

/// The returned text parses back to the sum: reading the digit string as
/// a base-10 number yields exactly `a + b`, whenever the sum fits.
pub proof fn lemma_sum_parses_back(a: usize, b: usize)
    requires
        a + b <= usize::MAX,
    ensures
        sum_as_string_spec(a, b) matches Ok(s) && dec_value(s) == a + b,
{
    lemma_decimal_round_trip((a + b) as nat);
}

/// Addition is commutative: swapping the operands never changes the
/// result, neither the text nor whether the call overflows.
pub proof fn lemma_sum_commutative(a: usize, b: usize)
    ensures
        sum_as_string_spec(a, b) == sum_as_string_spec(b, a),
{
}

/// Zero is the identity element: the sum of `a` and `0` is rendered as
/// `a` alone is, the very digit string `usize_to_decimal` returns for `a`.
pub proof fn lemma_sum_identity(a: usize)
    ensures
        sum_as_string_spec(a, 0) == Ok::<Seq<char>, SumError>(dec_digits(a as nat)),
{
}

/// The adder is deterministic: two results that meet its contract on the
/// same inputs agree — same success or failure, the same characters on
/// success, and the same error on failure.
pub proof fn lemma_sum_deterministic(
    a: usize,
    b: usize,
    r1: Result<String, SumError>,
    r2: Result<String, SumError>,
)
    requires
        result_chars(r1) == sum_as_string_spec(a, b),
        result_chars(r2) == sum_as_string_spec(a, b),
    ensures
        result_chars(r1) == result_chars(r2),
        r1 is Ok <==> r2 is Ok,
        r1 is Ok ==> r1->Ok_0@ == r2->Ok_0@,
        r1 is Err ==> r1->Err_0 == r2->Err_0,
{
}

} // verus!
