use crate::item::{weights_valid, Item};
use vstd::prelude::*;

verus! {

/// The most cells that a value table may hold.
pub const MAX_TABLE_CELLS: usize = 1_048_576;

/// The cell of the value table in row `i` and column `w`: the best total
/// value that the first `i` items give under a weight budget of `w`, where
/// nothing is chosen once the budget is used up. The first row and the
/// first column are 0.
pub open spec fn best_value(items: Seq<Item>, i: nat, w: int) -> int
    decreases i,
{
    if i == 0 || w <= 0 {
        0
    } else {
        let item = items[i - 1];
        let without = best_value(items, (i - 1) as nat, w);
        if item.weight > w {
            without
        } else {
            let with = best_value(items, (i - 1) as nat, w - item.weight) + item.value;
            if with > without {
                with
            } else {
                without
            }
        }
    }
}

/// A table for `items` and `capacity` has no more cells than the solver
/// allows.
pub open spec fn table_fits(items: Seq<Item>, capacity: int) -> bool {
    (items.len() + 1) * (capacity + 1) <= MAX_TABLE_CELLS
}

/// `table` is the value table of `items` up to `capacity`: one row for each
/// prefix of the items, one column for each budget from 0 to `capacity`.
pub open spec fn is_value_table(table: Seq<Vec<i32>>, items: Seq<Item>, capacity: int) -> bool {
    &&& table.len() == items.len() + 1
    &&& forall|i: int| 0 <= i <= items.len() ==> (#[trigger] table[i])@.len() == capacity + 1
    &&& forall|i: int, w: int|
        0 <= i <= items.len() && 0 <= w <= capacity ==> (#[trigger] table[i]@[w]) == best_value(
            items,
            i as nat,
            w,
        )
}

/// Every cell is at least 0, and at most what `i` items of 8 bits can be
/// worth.
pub proof fn lemma_best_value_bounds(items: Seq<Item>, i: nat, w: int)
    ensures
        0 <= best_value(items, i, w) <= 127 * i,
    decreases i,
{
    if i > 0 && w > 0 {
        lemma_best_value_bounds(items, (i - 1) as nat, w);
        lemma_best_value_bounds(items, (i - 1) as nat, w - items[i - 1].weight);
    }
}

/// Down a column the cells never decrease: one more item to choose from
/// cannot lower the best value.
pub proof fn lemma_best_value_grows_with_items(items: Seq<Item>, i: nat, j: nat, w: int)
    requires
        i <= j,
    ensures
        best_value(items, i, w) <= best_value(items, j, w),
    decreases j,
{
    if i < j {
        lemma_best_value_grows_with_items(items, i, (j - 1) as nat, w);
        lemma_best_value_bounds(items, (j - 1) as nat, w);
    }
}

/// Along a row the cells never decrease: a larger capacity cannot lower the
/// best value.
pub proof fn lemma_best_value_grows_with_capacity(items: Seq<Item>, i: nat, w: int, extra: int)
    requires
        extra >= 0,
    ensures
        best_value(items, i, w) <= best_value(items, i, w + extra),
    decreases i,
{
    if i > 0 {
        let item = items[i - 1];
        let before = (i - 1) as nat;
        lemma_best_value_grows_with_capacity(items, before, w, extra);
        lemma_best_value_grows_with_capacity(items, before, w - item.weight, extra);
        lemma_best_value_bounds(items, i, w + extra);
    }
}

/// A row of `width` zeros: the table's first row.
fn zero_row(width: usize) -> (row: Vec<i32>)
    ensures
        row@.len() == width,
        forall|w: int| 0 <= w < width ==> row@[w] == 0,
{
    let mut row: Vec<i32> = Vec::with_capacity(width);
    let mut w: usize = 0;
    while w < width
        invariant
            w <= width,
            row@.len() == w,
            forall|k: int| 0 <= k < w ==> row@[k] == 0,
        decreases width - w,
    {
        row.push(0);
        w = w + 1;
    }
    row
}

/// The row that follows `prev` in the table: `prev` holds the best values of
/// the first `i` items, the result those of the first `i + 1`.
fn next_row(items: &[Item], i: usize, prev: &Vec<i32>, capacity: usize) -> (row: Vec<i32>)
    requires
        i < items@.len(),
        i < MAX_TABLE_CELLS,
        items@[i as int].weight >= 0,
        capacity <= i8::MAX,
        prev@.len() == capacity + 1,
        forall|w: int| 0 <= w <= capacity ==> prev@[w] == best_value(items@, i as nat, w),
    ensures
        row@.len() == capacity + 1,
        forall|w: int| 0 <= w <= capacity ==> row@[w] == best_value(items@, (i + 1) as nat, w),
{
    let item = items[i];
    let weight = item.weight as usize;
    let mut row: Vec<i32> = Vec::with_capacity(capacity + 1);
    row.push(0);
    let mut w: usize = 1;
    while w <= capacity
        invariant
            1 <= w <= capacity + 1,
            capacity <= i8::MAX,
            i < items@.len(),
            i < MAX_TABLE_CELLS,
            item == items@[i as int],
            item.weight >= 0,
            weight == item.weight,
            row@.len() == w,
            prev@.len() == capacity + 1,
            forall|k: int| 0 <= k <= capacity ==> prev@[k] == best_value(items@, i as nat, k),
            forall|k: int| 0 <= k < w ==> row@[k] == best_value(items@, (i + 1) as nat, k),
        decreases capacity + 1 - w,
    {
        let without = prev[w];
        let cell = if weight > w {
            without
        } else {
            proof {
                lemma_best_value_bounds(items@, i as nat, w - weight);
            }
            let with = prev[w - weight] + item.value as i32;
            if with > without {
                with
            } else {
                without
            }
        };
        row.push(cell);
        w = w + 1;
    }
    row
}

/// Builds the value table of `items` up to `capacity`, row by row.
pub(crate) fn value_table(items: &[Item], capacity: usize) -> (table: Vec<Vec<i32>>)
    requires
        weights_valid(items@),
        capacity <= i8::MAX,
        table_fits(items@, capacity as int),
    ensures
        is_value_table(table@, items@, capacity as int),
{
    let n = items.len();
    assert(n + 1 <= MAX_TABLE_CELLS) by (nonlinear_arith)
        requires
            (n + 1) * (capacity + 1) <= MAX_TABLE_CELLS,
            capacity >= 0,
            n >= 0,
    ;
    let mut table: Vec<Vec<i32>> = Vec::with_capacity(n + 1);
    table.push(zero_row(capacity + 1));
    let mut i: usize = 0;
    while i < n
        invariant
            i <= n,
            n == items@.len(),
            n < MAX_TABLE_CELLS,
            capacity <= i8::MAX,
            weights_valid(items@),
            table@.len() == i + 1,
            forall|r: int| 0 <= r <= i ==> (#[trigger] table@[r])@.len() == capacity + 1,
            forall|r: int, w: int|
                0 <= r <= i && 0 <= w <= capacity ==> (#[trigger] table@[r]@[w]) == best_value(
                    items@,
                    r as nat,
                    w,
                ),
        decreases n - i,
    {
        let row = next_row(items, i, &table[i], capacity);
        table.push(row);
        i = i + 1;
    }
    table
}

} // verus!
