use vstd::prelude::*;

verus! {

/// The reasons for which a request is turned down instead of solved.
#[derive(Clone, Copy, Debug, PartialEq, Eq, Structural)]
pub enum SolveError {
    /// The capacity is negative.
    InvalidCapacity,
    /// The list of values and the list of weights differ in length.
    MismatchedInput,
    /// An item has a negative weight.
    NegativeWeight,
    /// A total does not fit the 8-bit signed range of the answer.
    ArithmeticOverflow,
    /// The value table would hold more cells than the solver allows.
    ResourceExhausted,
}

} // verus!
