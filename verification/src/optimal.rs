use crate::error::SolveError;
use crate::item::{lemma_sums_of_cons, value_sum, weight_sum, weights_valid, Item};
use crate::selection::{
    budget_left, choice, lemma_selection_is_picked, lemma_selection_sums, lemma_taken_item_fits,
    picked, selection, takes,
};
use crate::solver::{is_outcome, outcome};
use crate::table::{
    best_value, lemma_best_value_grows_with_capacity, lemma_best_value_grows_with_items,
};
use vstd::prelude::*;

verus! {

/// `mask` marks a choice among `items` whose weight is within `capacity`.
pub open spec fn fits(items: Seq<Item>, mask: Seq<bool>, capacity: int) -> bool {
    &&& mask.len() == items.len()
    &&& weight_sum(picked(items, mask, items.len())) <= capacity
}

/// The total value of what `mask` marks among `items`.
pub open spec fn worth(items: Seq<Item>, mask: Seq<bool>) -> int {
    value_sum(picked(items, mask, items.len()))
}

/// `mask` marks a choice that fits `capacity` and is worth no less than any
/// other choice that fits.
pub open spec fn is_optimal(items: Seq<Item>, mask: Seq<bool>, capacity: int) -> bool {
    &&& fits(items, mask, capacity)
    &&& forall|other: Seq<bool>| #[trigger]
        fits(items, other, capacity) ==> worth(items, other) <= worth(items, mask)
}

/// No weightless item of `items` has a positive value.
pub open spec fn no_free_value(items: Seq<Item>) -> bool {
    forall|j: int| 0 <= j < items.len() && items[j].weight == 0 ==> items[j].value <= 0
}

/// `mask` marks, among the first `i` items, a choice that can be made from
/// the last item down with a budget of `w`: each marked item fits what is
/// left when its turn comes, and some budget is left then.
pub open spec fn spends_within(items: Seq<Item>, mask: Seq<bool>, i: nat, w: int) -> bool
    decreases i,
{
    if i == 0 {
        true
    } else if mask[i - 1] {
        &&& w >= 1
        &&& items[i - 1].weight <= w
        &&& spends_within(items, mask, (i - 1) as nat, w - items[i - 1].weight)
    } else {
        spends_within(items, mask, (i - 1) as nat, w)
    }
}

/// What `mask` marks among valid items weighs at least nothing.
proof fn lemma_picked_weight_nonnegative(items: Seq<Item>, mask: Seq<bool>, i: nat)
    requires
        weights_valid(items),
        i <= items.len(),
    ensures
        weight_sum(picked(items, mask, i)) >= 0,
    decreases i,
{
    if i > 0 {
        lemma_picked_weight_nonnegative(items, mask, (i - 1) as nat);
        lemma_sums_of_cons(items[i - 1], picked(items, mask, (i - 1) as nat));
    }
}

/// Marking one more item adds its value and its weight to the sums of what
/// is picked, once the item is among those looked at.
proof fn lemma_marking_adds(items: Seq<Item>, mask: Seq<bool>, i: nat, j: int)
    requires
        0 <= j < mask.len(),
        i <= mask.len(),
        !mask[j],
    ensures
        value_sum(picked(items, mask.update(j, true), i)) == value_sum(picked(items, mask, i)) + (
        if j < i {
            items[j].value as int
        } else {
            0
        }),
        weight_sum(picked(items, mask.update(j, true), i)) == weight_sum(picked(items, mask, i))
            + (if j < i {
            items[j].weight as int
        } else {
            0
        }),
    decreases i,
{
    if i > 0 {
        let before = (i - 1) as nat;
        let marked = mask.update(j, true);
        lemma_marking_adds(items, mask, before, j);
        if marked[i - 1] {
            lemma_sums_of_cons(items[i - 1], picked(items, marked, before));
        }
        if mask[i - 1] {
            lemma_sums_of_cons(items[i - 1], picked(items, mask, before));
        }
    }
}

/// The table's cell is an upper bound for every choice that spends within
/// the budget.
proof fn lemma_best_value_bounds_spending(items: Seq<Item>, mask: Seq<bool>, i: nat, w: int)
    requires
        spends_within(items, mask, i, w),
    ensures
        value_sum(picked(items, mask, i)) <= best_value(items, i, w),
    decreases i,
{
    if i > 0 {
        let before = (i - 1) as nat;
        let item = items[i - 1];
        if mask[i - 1] {
            lemma_best_value_bounds_spending(items, mask, before, w - item.weight);
            lemma_sums_of_cons(item, picked(items, mask, before));
        } else {
            lemma_best_value_bounds_spending(items, mask, before, w);
            lemma_best_value_grows_with_items(items, before, i, w);
        }
    }
}

/// The solver's own choice spends within the budget.
proof fn lemma_choice_spends_within(items: Seq<Item>, capacity: int, i: nat)
    requires
        i <= items.len(),
    ensures
        spends_within(items, choice(items, capacity), i, budget_left(items, capacity, i)),
    decreases i,
{
    if i > 0 {
        let before = (i - 1) as nat;
        lemma_choice_spends_within(items, capacity, before);
        let w = budget_left(items, capacity, i);
        if takes(items, before, w) {
            lemma_taken_item_fits(items, before, w);
        }
    }
}

/// Where no weightless item has a positive value, the table's cell is an
/// upper bound for every choice whose weight is within the budget.
proof fn lemma_best_value_bounds_fitting(items: Seq<Item>, mask: Seq<bool>, i: nat, w: int)
    requires
        weights_valid(items),
        no_free_value(items),
        i <= items.len(),
        w >= 0,
        weight_sum(picked(items, mask, i)) <= w,
    ensures
        value_sum(picked(items, mask, i)) <= best_value(items, i, w),
    decreases i,
{
    if i > 0 {
        let before = (i - 1) as nat;
        let item = items[i - 1];
        if mask[i - 1] {
            lemma_sums_of_cons(item, picked(items, mask, before));
            lemma_picked_weight_nonnegative(items, mask, before);
            lemma_best_value_bounds_fitting(items, mask, before, w - item.weight);
        } else {
            lemma_best_value_bounds_fitting(items, mask, before, w);
            lemma_best_value_grows_with_items(items, before, i, w);
        }
    }
}

/// Whatever the items, the selection is the best of the choices that spend
/// within the capacity: it is what `choice` marks, `choice` spends within
/// the capacity, and no choice that does is worth more.
pub proof fn lemma_selection_is_best_spending(items: Seq<Item>, capacity: int)
    requires
        capacity >= 0,
    ensures
        selection(items, items.len(), capacity) == picked(
            items,
            choice(items, capacity),
            items.len(),
        ),
        spends_within(items, choice(items, capacity), items.len(), capacity),
        forall|mask: Seq<bool>| #[trigger]
            spends_within(items, mask, items.len(), capacity) ==> worth(items, mask) <= worth(
                items,
                choice(items, capacity),
            ),
{
    lemma_selection_is_picked(items, capacity);
    lemma_choice_spends_within(items, capacity, items.len());
    lemma_selection_sums(items, items.len(), capacity);
    assert forall|mask: Seq<bool>| #[trigger]
        spends_within(items, mask, items.len(), capacity) implies worth(items, mask) <= worth(
        items,
        choice(items, capacity),
    ) by {
        lemma_best_value_bounds_spending(items, mask, items.len(), capacity);
    }
}

/// Where no weight is negative and no weightless item has a positive value,
/// the selection is optimal: it is what `choice` marks, its weight is
/// within the capacity, and no choice of items that fits the capacity is
/// worth more.
pub proof fn lemma_selection_is_optimal(items: Seq<Item>, capacity: int)
    requires
        capacity >= 0,
        weights_valid(items),
        no_free_value(items),
    ensures
        selection(items, items.len(), capacity) == picked(
            items,
            choice(items, capacity),
            items.len(),
        ),
        is_optimal(items, choice(items, capacity), capacity),
{
    lemma_selection_is_picked(items, capacity);
    lemma_selection_sums(items, items.len(), capacity);
    assert forall|other: Seq<bool>| #[trigger] fits(items, other, capacity) implies worth(
        items,
        other,
    ) <= worth(items, choice(items, capacity)) by {
        lemma_best_value_bounds_fitting(items, other, items.len(), capacity);
    }
}

/// An optimal choice marks every weightless item of positive value: such
/// an item costs nothing and raises the total.
pub proof fn lemma_optimal_choice_marks_free_items(
    items: Seq<Item>,
    mask: Seq<bool>,
    capacity: int,
    j: int,
)
    requires
        is_optimal(items, mask, capacity),
        0 <= j < items.len(),
        items[j].weight == 0,
        items[j].value > 0,
    ensures
        mask[j],
{
    if !mask[j] {
        let other = mask.update(j, true);
        lemma_marking_adds(items, mask, items.len(), j);
        assert(fits(items, other, capacity));
        assert(worth(items, other) > worth(items, mask));
    }
}

/// Solving the same input twice gives the same answer: the same error, or
/// the same items and with them the same total value.
pub proof fn lemma_same_input_same_outcome(
    items: Seq<Item>,
    capacity: int,
    first: Result<Vec<Item>, SolveError>,
    second: Result<Vec<Item>, SolveError>,
)
    requires
        is_outcome(first, items, capacity),
        is_outcome(second, items, capacity),
    ensures
        first is Ok <==> second is Ok,
        first is Ok ==> first->Ok_0@ == second->Ok_0@ && value_sum(first->Ok_0@) == value_sum(
            second->Ok_0@,
        ),
        first is Err ==> first->Err_0 == second->Err_0,
{
}

/// A larger capacity never lowers the total value of what the solver
/// selects.
pub proof fn lemma_more_capacity_no_less_value(
    items: Seq<Item>,
    capacity: int,
    extra: int,
    small: Seq<Item>,
    large: Seq<Item>,
)
    requires
        extra >= 0,
        outcome(items, capacity) == Ok::<Seq<Item>, SolveError>(small),
        outcome(items, capacity + extra) == Ok::<Seq<Item>, SolveError>(large),
    ensures
        value_sum(small) <= value_sum(large),
{
    lemma_selection_sums(items, items.len(), capacity);
    lemma_selection_sums(items, items.len(), capacity + extra);
    lemma_best_value_grows_with_capacity(items, items.len(), capacity, extra);
}

} // verus!
