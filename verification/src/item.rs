use crate::error::SolveError;
use vstd::prelude::*;

verus! {

/// One selectable unit: taken whole or left out.
#[derive(Clone, Copy, Debug, PartialEq, Eq, Structural)]
pub struct Item {
    pub value: i8,
    pub weight: i8,
}

/// The sum of the values of `s`.
pub open spec fn value_sum(s: Seq<Item>) -> int
    decreases s.len(),
{
    if s.len() == 0 {
        0
    } else {
        s[0].value + value_sum(s.skip(1))
    }
}

/// The sum of the weights of `s`.
pub open spec fn weight_sum(s: Seq<Item>) -> int
    decreases s.len(),
{
    if s.len() == 0 {
        0
    } else {
        s[0].weight + weight_sum(s.skip(1))
    }
}

/// No item of `items` has a negative weight.
pub open spec fn weights_valid(items: Seq<Item>) -> bool {
    forall|j: int| 0 <= j < items.len() ==> items[j].weight >= 0
}

/// Putting an item in front of a sequence adds its value and its weight to
/// the sums.
pub proof fn lemma_sums_of_cons(x: Item, s: Seq<Item>)
    ensures
        value_sum(seq![x] + s) == x.value + value_sum(s),
        weight_sum(seq![x] + s) == x.weight + weight_sum(s),
{
    assert((seq![x] + s).skip(1) =~= s);
}

/// Adds up the values of `selection`. The sum is exact: it is computed in a
/// wider type and handed out only if it fits 8 bits.
pub fn total_value(selection: &[Item]) -> (result: Result<i8, SolveError>)
    ensures
        -128 <= value_sum(selection@) <= 127 ==> result == Ok::<i8, SolveError>(
            value_sum(selection@) as i8,
        ),
        !(-128 <= value_sum(selection@) <= 127) ==> result == Err::<i8, SolveError>(
            SolveError::ArithmeticOverflow,
        ),
{
    let mut acc: i128 = 0;
    let mut i: usize = 0;
    proof {
        assert(selection@.skip(0) =~= selection@);
    }
    while i < selection.len()
        invariant
            i <= selection.len(),
            acc + value_sum(selection@.skip(i as int)) == value_sum(selection@),
            -128 * i <= acc <= 127 * i,
        decreases selection.len() - i,
    {
        proof {
            assert(selection@.skip(i as int).skip(1) =~= selection@.skip(i + 1));
        }
        acc = acc + selection[i].value as i128;
        i = i + 1;
    }
    if -128 <= acc && acc <= 127 {
        Ok(acc as i8)
    } else {
        Err(SolveError::ArithmeticOverflow)
    }
}

/// Adds up the weights of `selection`, exactly as `total_value` does for
/// the values.
pub fn total_weight(selection: &[Item]) -> (result: Result<i8, SolveError>)
    ensures
        -128 <= weight_sum(selection@) <= 127 ==> result == Ok::<i8, SolveError>(
            weight_sum(selection@) as i8,
        ),
        !(-128 <= weight_sum(selection@) <= 127) ==> result == Err::<i8, SolveError>(
            SolveError::ArithmeticOverflow,
        ),
{
    let mut acc: i128 = 0;
    let mut i: usize = 0;
    proof {
        assert(selection@.skip(0) =~= selection@);
    }
    while i < selection.len()
        invariant
            i <= selection.len(),
            acc + weight_sum(selection@.skip(i as int)) == weight_sum(selection@),
            -128 * i <= acc <= 127 * i,
        decreases selection.len() - i,
    {
        proof {
            assert(selection@.skip(i as int).skip(1) =~= selection@.skip(i + 1));
        }
        acc = acc + selection[i].weight as i128;
        i = i + 1;
    }
    if -128 <= acc && acc <= 127 {
        Ok(acc as i8)
    } else {
        Err(SolveError::ArithmeticOverflow)
    }
}

} // verus!
