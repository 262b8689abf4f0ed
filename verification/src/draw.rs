//! Drawing a fresh value: a random sample from an inclusive range that the
//! history does not already hold.

use vstd::prelude::*;
use vstd::pervasive::unreached;
use rand::RngExt;
use crate::history::{covers, History};
use crate::token::{to_token, token_of};

verus! {

/// How many random samples are tried before falling back to a scan. The
/// fallback keeps the draw terminating even though single samples may
/// collide with the history arbitrarily often.
const RETRY_LIMIT: u32 = 10000;

/// Relies on `rand::RngExt::random_range` over the inclusive range
/// `min..=max`: the sample lies within the bounds, and the range is
/// non-empty so the call does not panic. Nothing more is assumed of the
/// sample.
#[verifier::external_body]
fn random_in_range(min: i8, max: i8) -> (r: i8)
    requires
        min <= max,
    ensures
        min <= r <= max,
{
    rand::rng().random_range(min..=max)
}

/// The smallest value in `[min, max]` whose token the history does not hold.
/// The deterministic fallback of [`extract_number`].
fn first_undrawn(min: i8, max: i8, history: &History) -> (tok: String)
    requires
        min <= max,
        !covers(history@, min as int, max as int),
    ensures
        exists|v: int| min <= v <= max && tok@ == token_of(v),
        !history@.contains(tok@),
{
    let mut v: i16 = min as i16;
    while v <= max as i16
        invariant
            min as int <= v as int <= max as int + 1,
            forall|w: int| min as int <= w < v as int ==> history@.contains(#[trigger] token_of(w)),
        decreases max as int + 1 - v as int,
    {
        let tok = to_token(v as i8);
        if !history.contains_token(&tok) {
            proof {
                assert(tok@ == token_of(v as int));
            }
            return tok;
        }
        v = v + 1;
    }
    proof {
        assert(covers(history@, min as int, max as int));
        assert(false);
    }
    unreached()
}

/// Draws a token whose value lies in `[min, max]` and is absent from the
/// history. The caller must guarantee that the history does not already
/// cover the whole range; under that guarantee the draw always succeeds.
/// Random samples are taken first; after [`RETRY_LIMIT`] collisions the
/// smallest remaining value is taken, so the function terminates.
pub fn extract_number(min: i8, max: i8, history: &History) -> (tok: String)
    requires
        min <= max,
        !covers(history@, min as int, max as int),
    ensures
        exists|v: int| min <= v <= max && tok@ == token_of(v),
        !history@.contains(tok@),
{
    let mut attempts: u32 = 0;
    while attempts < RETRY_LIMIT
        invariant
            min <= max,
        decreases RETRY_LIMIT - attempts,
    {
        let num = random_in_range(min, max);
        let tok = to_token(num);
        if !history.contains_token(&tok) {
            proof {
                assert(tok@ == token_of(num as int));
            }
            return tok;
        }
        attempts = attempts + 1;
    }
    first_undrawn(min, max, history)
}

} // verus!
