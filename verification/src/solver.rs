use crate::error::SolveError;
use crate::item::{value_sum, weight_sum, weights_valid, Item};
use crate::selection::{
    lemma_no_budget_no_selection, lemma_selection_sums, lemma_taken_item_fits,
    lemma_too_heavy_no_selection, selection, takes,
};
use crate::table::{best_value, is_value_table, table_fits, value_table, MAX_TABLE_CELLS};
use vstd::prelude::*;

verus! {

/// What solving `items` under `capacity` gives: the error of the first
/// check that fails, or else the selection that the backward walk collects
/// from all the items.
pub open spec fn outcome(items: Seq<Item>, capacity: int) -> Result<Seq<Item>, SolveError> {
    if capacity < 0 {
        Err(SolveError::InvalidCapacity)
    } else if !weights_valid(items) {
        Err(SolveError::NegativeWeight)
    } else if !table_fits(items, capacity) {
        Err(SolveError::ResourceExhausted)
    } else {
        Ok(selection(items, items.len(), capacity))
    }
}

/// `result` is what solving `items` under `capacity` gives.
pub open spec fn is_outcome(
    result: Result<Vec<Item>, SolveError>,
    items: Seq<Item>,
    capacity: int,
) -> bool {
    match result {
        Ok(chosen) => outcome(items, capacity) == Ok::<Seq<Item>, SolveError>(chosen@),
        Err(e) => outcome(items, capacity) == Err::<Seq<Item>, SolveError>(e),
    }
}

/// Whether no item has a negative weight.
fn check_weights(items: &[Item]) -> (valid: bool)
    ensures
        valid == weights_valid(items@),
{
    let mut i: usize = 0;
    while i < items.len()
        invariant
            i <= items@.len(),
            forall|j: int| 0 <= j < i ==> items@[j].weight >= 0,
        decreases items@.len() - i,
    {
        if items[i].weight < 0 {
            return false;
        }
        i = i + 1;
    }
    true
}

/// Whether the table for `items` and `capacity` has no more cells than the
/// solver allows.
fn check_table_size(items: &[Item], capacity: usize) -> (fits: bool)
    requires
        capacity <= i8::MAX,
    ensures
        fits == table_fits(items@, capacity as int),
{
    let n = items.len();
    if n >= MAX_TABLE_CELLS {
        assert((n + 1) * (capacity + 1) > MAX_TABLE_CELLS) by (nonlinear_arith)
            requires
                n >= MAX_TABLE_CELLS,
                capacity >= 0,
        ;
        return false;
    }
    assert((n + 1) * (capacity + 1) <= MAX_TABLE_CELLS * 128) by (nonlinear_arith)
        requires
            0 <= n < MAX_TABLE_CELLS,
            0 <= capacity <= 127,
    ;
    (n + 1) * (capacity + 1) <= MAX_TABLE_CELLS
}

/// Solves the 0/1 knapsack problem for `items` under the capacity
/// `max_weight`.
///
/// A negative capacity, an item of negative weight and a table of more than
/// `MAX_TABLE_CELLS` cells are turned down, in this order. Otherwise the
/// value table is built and walked backwards from its last cell: an item is
/// taken where the cells above and below differ. The items taken are
/// returned, the one considered last first. Their total weight is within
/// the capacity and their total value is the table's last cell. Nothing is
/// taken from an empty list, under a capacity of 0, or where every item
/// weighs more than the capacity.
pub fn knapsack(items: Vec<Item>, max_weight: i8) -> (result: Result<Vec<Item>, SolveError>)
    ensures
        is_outcome(result, items@, max_weight as int),
        max_weight < 0 ==> result == Err::<Vec<Item>, SolveError>(SolveError::InvalidCapacity),
        items@.len() == 0 && max_weight >= 0 ==> result is Ok && result->Ok_0@.len() == 0
            && value_sum(result->Ok_0@) == 0,
        result is Ok && max_weight == 0 ==> result->Ok_0@.len() == 0,
        result is Ok && (forall|j: int| 0 <= j < items@.len() ==> items@[j].weight > max_weight)
            ==> result->Ok_0@.len() == 0,
        result is Ok ==> weight_sum(result->Ok_0@) <= max_weight,
        result is Ok ==> value_sum(result->Ok_0@) == best_value(
            items@,
            items@.len(),
            max_weight as int,
        ),
{
    if max_weight < 0 {
        return Err(SolveError::InvalidCapacity);
    }
    if !check_weights(items.as_slice()) {
        return Err(SolveError::NegativeWeight);
    }
    let capacity = max_weight as usize;
    if !check_table_size(items.as_slice(), capacity) {
        assert(items@.len() > 0) by (nonlinear_arith)
            requires
                (items@.len() + 1) * (capacity + 1) > MAX_TABLE_CELLS,
                0 <= capacity <= 127,
        ;
        return Err(SolveError::ResourceExhausted);
    }
    let table = value_table(items.as_slice(), capacity);

    let n = items.len();
    let mut chosen: Vec<Item> = Vec::with_capacity(n);
    let mut left: usize = capacity;
    let mut i: usize = n;
    while i > 0
        invariant
            i <= n,
            n == items@.len(),
            left <= capacity,
            weights_valid(items@),
            is_value_table(table@, items@, capacity as int),
            chosen@ + selection(items@, i as nat, left as int) == selection(
                items@,
                n as nat,
                capacity as int,
            ),
        decreases i,
    {
        i = i - 1;
        let below = table[i + 1][left];
        let above = table[i][left];
        assert(takes(items@, i as nat, left as int) == (below != above));
        if below != above {
            let item = items[i];
            proof {
                lemma_taken_item_fits(items@, i as nat, left as int);
                let rest = selection(items@, i as nat, left - item.weight);
                assert(chosen@.push(item) + rest =~= chosen@ + (seq![item] + rest));
            }
            chosen.push(item);
            left = left - item.weight as usize;
        }
    }
    proof {
        assert(chosen@ + Seq::<Item>::empty() =~= chosen@);
        lemma_selection_sums(items@, n as nat, capacity as int);
        if capacity == 0 {
            lemma_no_budget_no_selection(items@, n as nat, 0);
        }
        if forall|j: int| 0 <= j < items@.len() ==> items@[j].weight > max_weight {
            lemma_too_heavy_no_selection(items@, n as nat, capacity as int);
        }
    }
    Ok(chosen)
}

} // verus!
