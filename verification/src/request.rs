use crate::error::SolveError;
use crate::item::{total_value, value_sum, Item};
use crate::solver::{knapsack, outcome};
use crate::table::best_value;
use vstd::prelude::*;

verus! {

/// The items that two lists of equal length describe: the value of item `j`
/// is `values[j]`, its weight `weights[j]`.
pub open spec fn paired(values: Seq<i8>, weights: Seq<i8>) -> Seq<Item> {
    Seq::new(values.len(), |j: int| Item { value: values[j], weight: weights[j] })
}

/// What a request for `values`, `weights` and `capacity` is answered with:
/// the total value of the selection, or the error of the first check that
/// fails.
pub open spec fn answer(values: Seq<i8>, weights: Seq<i8>, capacity: int) -> Result<
    int,
    SolveError,
> {
    if values.len() != weights.len() {
        Err(SolveError::MismatchedInput)
    } else {
        match outcome(paired(values, weights), capacity) {
            Err(e) => Err(e),
            Ok(chosen) => if -128 <= value_sum(chosen) <= 127 {
                Ok(value_sum(chosen))
            } else {
                Err(SolveError::ArithmeticOverflow)
            },
        }
    }
}

/// Pairs each value with the weight at the same position. Lists of
/// different lengths are turned down.
pub fn pair_items(values: &[i8], weights: &[i8]) -> (result: Result<Vec<Item>, SolveError>)
    ensures
        values@.len() != weights@.len() ==> result == Err::<Vec<Item>, SolveError>(
            SolveError::MismatchedInput,
        ),
        values@.len() == weights@.len() ==> result is Ok && result->Ok_0@ == paired(
            values@,
            weights@,
        ),
{
    if values.len() != weights.len() {
        return Err(SolveError::MismatchedInput);
    }
    let n = values.len();
    let mut items: Vec<Item> = Vec::with_capacity(n);
    let mut i: usize = 0;
    while i < n
        invariant
            i <= n,
            n == values@.len(),
            n == weights@.len(),
            items@.len() == i,
            forall|j: int| 0 <= j < i ==> items@[j] == paired(values@, weights@)[j],
        decreases n - i,
    {
        items.push(Item { value: values[i], weight: weights[i] });
        i = i + 1;
    }
    assert(items@ =~= paired(values@, weights@));
    Ok(items)
}

/// Answers one request: pairs the values with the weights, solves the
/// knapsack problem for them under `capacity` and adds up the values of the
/// items selected.
pub fn solve(values: &[i8], weights: &[i8], capacity: i8) -> (result: Result<i8, SolveError>)
    ensures
        match result {
            Ok(total) => answer(values@, weights@, capacity as int) == Ok::<int, SolveError>(
                total as int,
            ),
            Err(e) => answer(values@, weights@, capacity as int) == Err::<int, SolveError>(e),
        },
        result is Ok ==> result->Ok_0 == best_value(
            paired(values@, weights@),
            values@.len(),
            capacity as int,
        ),
{
    let items = match pair_items(values, weights) {
        Ok(items) => items,
        Err(e) => {
            return Err(e);
        },
    };
    let chosen = match knapsack(items, capacity) {
        Ok(chosen) => chosen,
        Err(e) => {
            return Err(e);
        },
    };
    total_value(chosen.as_slice())
}

} // verus!
