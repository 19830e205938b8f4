//! Gathering what the workers report once all of them have terminated.

use vstd::prelude::*;
use crate::worker::{Failure, Outcome};

verus! {

/// The first failure among the outcomes, by input order.
#[derive(Clone, Copy, Debug, PartialEq, Eq, Structural)]
pub struct FirstFailure {
    /// The index of the input whose worker failed.
    pub input: usize,
    /// Which side of that worker failed.
    pub failure: Failure,
}

/// Whether every outcome before `end` is a line count.
pub open spec fn all_succeeded(outcomes: Seq<Outcome>, end: int) -> bool {
    forall|i: int| 0 <= i < end ==> (#[trigger] outcomes[i]) is Lines
}

/// Turns the workers' outcomes, given in input order, into the result of the
/// whole run.
///
/// Where every worker succeeded, the result is the line count of each input,
/// in input order. Where any failed, it is the failure of the first input
/// that failed.
pub fn collect_outcomes(outcomes: &Vec<Outcome>) -> (result: Result<Vec<usize>, FirstFailure>)
    ensures
        match result {
            Ok(counts) => {
                &&& counts@.len() == outcomes@.len()
                &&& forall|i: int|
                    0 <= i < outcomes@.len() ==> outcomes@[i] == Outcome::Lines(
                        #[trigger] counts@[i],
                    )
            },
            Err(first) => {
                &&& first.input < outcomes@.len()
                &&& outcomes@[first.input as int] == Outcome::Failed(first.failure)
                &&& all_succeeded(outcomes@, first.input as int)
            },
        },
{
    let mut counts: Vec<usize> = Vec::new();
    let mut i: usize = 0;
    while i < outcomes.len()
        invariant
            i <= outcomes@.len(),
            counts@.len() == i,
            all_succeeded(outcomes@, i as int),
            forall|j: int| 0 <= j < i ==> outcomes@[j] == Outcome::Lines(#[trigger] counts@[j]),
        decreases outcomes@.len() - i,
    {
        match outcomes[i] {
            Outcome::Lines(n) => {
                counts.push(n);
            },
            Outcome::Failed(failure) => {
                return Err(FirstFailure { input: i, failure });
            },
        }
        i += 1;
    }
    Ok(counts)
}

} // verus!
