use crate::item::{lemma_sums_of_cons, value_sum, weight_sum, Item};
use crate::table::{best_value, lemma_best_value_grows_with_capacity};
use vstd::prelude::*;

verus! {

/// Whether the backward walk takes item `i` when it reaches it with a budget
/// of `w`: it does where the table's cells above and below differ.
pub open spec fn takes(items: Seq<Item>, i: nat, w: int) -> bool {
    best_value(items, i + 1, w) != best_value(items, i, w)
}

/// What the backward walk collects from the first `i` items with a budget of
/// `w`, the item considered last coming first.
pub open spec fn selection(items: Seq<Item>, i: nat, w: int) -> Seq<Item>
    decreases i,
{
    if i == 0 {
        Seq::empty()
    } else if takes(items, (i - 1) as nat, w) {
        seq![items[i - 1]] + selection(items, (i - 1) as nat, w - items[i - 1].weight)
    } else {
        selection(items, (i - 1) as nat, w)
    }
}

/// The budget that the walk over all of `items`, started with `capacity`,
/// has left when it has dealt with the items from `i` on.
pub open spec fn budget_left(items: Seq<Item>, capacity: int, i: nat) -> int
    decreases items.len() - i,
{
    if i >= items.len() {
        capacity
    } else {
        let after = budget_left(items, capacity, i + 1);
        if takes(items, i, after) {
            after - items[i as int].weight
        } else {
            after
        }
    }
}

/// Whether the walk over all of `items`, started with `capacity`, takes
/// item `j`.
pub open spec fn is_taken(items: Seq<Item>, capacity: int, j: int) -> bool {
    takes(items, j as nat, budget_left(items, capacity, (j + 1) as nat))
}

/// For each item of `items`, whether the walk started with `capacity` takes
/// it.
pub open spec fn choice(items: Seq<Item>, capacity: int) -> Seq<bool> {
    Seq::new(items.len(), |j: int| is_taken(items, capacity, j))
}

/// The items among the first `i` that `mask` marks, the last one first.
pub open spec fn picked(items: Seq<Item>, mask: Seq<bool>, i: nat) -> Seq<Item>
    decreases i,
{
    if i == 0 {
        Seq::empty()
    } else if mask[i - 1] {
        seq![items[i - 1]] + picked(items, mask, (i - 1) as nat)
    } else {
        picked(items, mask, (i - 1) as nat)
    }
}

/// An item is taken only with budget to spare and only where it fits, and
/// then the cell below is the cell above, a weight to the left, plus the
/// item's value.
pub proof fn lemma_taken_item_fits(items: Seq<Item>, i: nat, w: int)
    requires
        takes(items, i, w),
    ensures
        w >= 1,
        items[i as int].weight <= w,
        best_value(items, i + 1, w) == best_value(items, i, w - items[i as int].weight)
            + items[i as int].value,
{
}

/// The selection weighs no more than the budget, is worth exactly the
/// table's cell, and holds no more than `i` items.
pub proof fn lemma_selection_sums(items: Seq<Item>, i: nat, w: int)
    requires
        w >= 0,
    ensures
        weight_sum(selection(items, i, w)) <= w,
        value_sum(selection(items, i, w)) == best_value(items, i, w),
        selection(items, i, w).len() <= i,
    decreases i,
{
    if i > 0 {
        let before = (i - 1) as nat;
        let item = items[i - 1];
        if takes(items, before, w) {
            lemma_taken_item_fits(items, before, w);
            lemma_selection_sums(items, before, w - item.weight);
            lemma_sums_of_cons(item, selection(items, before, w - item.weight));
        } else {
            lemma_selection_sums(items, before, w);
        }
    }
}

/// With no budget the walk collects nothing, whatever the items.
pub proof fn lemma_no_budget_no_selection(items: Seq<Item>, i: nat, w: int)
    requires
        w <= 0,
    ensures
        selection(items, i, w).len() == 0,
    decreases i,
{
    if i > 0 {
        lemma_no_budget_no_selection(items, (i - 1) as nat, w);
    }
}

/// Where each of the first `i` items weighs more than the budget, the walk
/// collects nothing.
pub proof fn lemma_too_heavy_no_selection(items: Seq<Item>, i: nat, w: int)
    requires
        i <= items.len(),
        forall|j: int| 0 <= j < i ==> items[j].weight > w,
    ensures
        best_value(items, i, w) == 0,
        selection(items, i, w).len() == 0,
    decreases i,
{
    if i > 0 {
        lemma_too_heavy_no_selection(items, (i - 1) as nat, w);
    }
}

/// An item that is worth nothing, or less, is never taken: where the best
/// value is the same with the item and without it, the walk leaves it out.
pub proof fn lemma_worthless_item_left_out(items: Seq<Item>, i: nat, w: int)
    requires
        items[i as int].weight >= 0,
        items[i as int].value <= 0,
    ensures
        !takes(items, i, w),
{
    let weight = items[i as int].weight as int;
    lemma_best_value_grows_with_capacity(items, i, w - weight, weight);
}

/// What the walk collects from the first `i` items is what `choice` marks
/// among them.
pub proof fn lemma_selection_follows_choice(items: Seq<Item>, capacity: int, i: nat)
    requires
        i <= items.len(),
    ensures
        selection(items, i, budget_left(items, capacity, i)) == picked(
            items,
            choice(items, capacity),
            i,
        ),
    decreases i,
{
    if i > 0 {
        lemma_selection_follows_choice(items, capacity, (i - 1) as nat);
    }
}

/// The selection from all the items is a choice among them: `choice` marks
/// exactly the items that it holds.
pub proof fn lemma_selection_is_picked(items: Seq<Item>, capacity: int)
    ensures
        selection(items, items.len(), capacity) == picked(
            items,
            choice(items, capacity),
            items.len(),
        ),
        choice(items, capacity).len() == items.len(),
{
    lemma_selection_follows_choice(items, capacity, items.len());
}

/// An item that `mask` marks among the first `i` is among the picked.
pub proof fn lemma_marked_item_is_picked(items: Seq<Item>, mask: Seq<bool>, i: nat, j: int)
    requires
        0 <= j < i,
        mask[j],
    ensures
        picked(items, mask, i).contains(items[j]),
    decreases i,
{
    let before = (i - 1) as nat;
    let all = picked(items, mask, i);
    let rest = picked(items, mask, before);
    if j == i - 1 {
        assert(all[0] == items[j]);
    } else {
        lemma_marked_item_is_picked(items, mask, before, j);
        let k = choose|k: int| 0 <= k < rest.len() && rest[k] == items[j];
        if mask[i - 1] {
            assert(all[k + 1] == rest[k]);
        }
    }
}

/// A weightless item of positive value is taken wherever the walk reaches
/// it with budget left, and is then among the items selected.
pub proof fn lemma_free_item_taken(items: Seq<Item>, capacity: int, j: int)
    requires
        0 <= j < items.len(),
        items[j].weight == 0,
        items[j].value > 0,
        budget_left(items, capacity, (j + 1) as nat) >= 1,
    ensures
        is_taken(items, capacity, j),
        selection(items, items.len(), capacity).contains(items[j]),
{
    lemma_selection_is_picked(items, capacity);
    lemma_marked_item_is_picked(items, choice(items, capacity), items.len(), j);
}

/// Once the budget is used up the walk takes no item, whatever its weight
/// and value.
pub proof fn lemma_nothing_taken_without_budget(items: Seq<Item>, capacity: int, j: int)
    requires
        0 <= j < items.len(),
        budget_left(items, capacity, (j + 1) as nat) <= 0,
    ensures
        !is_taken(items, capacity, j),
{
}

} // verus!
