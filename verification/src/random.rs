//! Random draws. The functions here are the library's only source of chance;
//! their contracts are trusted and state what holds of every outcome.
//!
//! Both draw from the generator that `rand::thread_rng` returns, which the
//! system seeds once for each thread. Where the system gives it no seed,
//! `rand::thread_rng` panics; no argument of these functions decides that.

use rand::seq::SliceRandom;
use rand::Rng;
use vstd::prelude::*;

verus! {

/// Trusted: `rand::seq::SliceRandom::choose` on the items as a slice, drawing
/// from the generator that `rand::thread_rng` returns. It gives nothing for an
/// empty slice, and otherwise a reference to one of the slice's elements.
/// Which element is left open.
#[verifier::external_body]
pub(crate) fn pick_one<T>(items: &Vec<T>) -> (picked: Option<&T>)
    ensures
        items@.len() == 0 ==> picked is None,
        items@.len() > 0 ==> picked is Some,
        picked matches Some(item) ==> items@.contains(*item),
{
    items.choose(&mut rand::thread_rng())
}

/// Trusted: `rand::Rng::gen_range` over the half-open range `low..high`, on the
/// generator that `rand::thread_rng` returns. The range must not be empty; the
/// result lies in it. Which of its values comes is left open.
#[verifier::external_body]
pub(crate) fn random_between(low: i32, high: i32) -> (value: i32)
    requires
        low < high,
    ensures
        low <= value < high,
{
    rand::thread_rng().gen_range(low..high)
}

} // verus!
