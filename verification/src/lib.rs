//! A 0/1 knapsack solver over small signed integers.
//!
//! Given an ordered list of items, each with a value and a weight, and a
//! capacity, the solver fills a table of best values by dynamic programming
//! and walks it backwards to recover one selection of items whose total
//! weight stays within the capacity.
//!
//! - `item`: the items and their exact sums.
//! - `table`: the value table, what its cells hold and how it is built.
//! - `selection`: the backward walk over the table and what it collects.
//! - `solver`: `knapsack`, which checks its input, builds the table and
//!   walks it.
//! - `optimal`: what the selection is the best of, and how it behaves when
//!   the input is solved again or the capacity grows.
//! - `request`: `solve`, from lists of values and weights to the total
//!   value of the selection.
//! - `error`: the reasons for which an input is turned down.

pub mod error;
pub mod item;
pub mod optimal;
pub mod request;
pub mod selection;
pub mod solver;
pub mod table;

pub use error::SolveError;
pub use item::{total_value, total_weight, Item};
pub use request::{pair_items, solve};
pub use solver::knapsack;
pub use table::MAX_TABLE_CELLS;
