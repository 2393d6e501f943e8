use knapsack_solver::{knapsack, total_value, total_weight, Item, SolveError, MAX_TABLE_CELLS};

fn item(value: i8, weight: i8) -> Item {
    Item { value, weight }
}

/// The best total value over every subset that fits, found by trying them
/// all.
fn best_by_search(items: &[Item], capacity: i8) -> i64 {
    let mut best: i64 = 0;
    for mask in 0u32..(1u32 << items.len()) {
        let mut value: i64 = 0;
        let mut weight: i64 = 0;
        for (j, it) in items.iter().enumerate() {
            if mask & (1 << j) != 0 {
                value += it.value as i64;
                weight += it.weight as i64;
            }
        }
        if weight <= capacity as i64 && value > best {
            best = value;
        }
    }
    best
}

fn sum_values(items: &[Item]) -> i64 {
    items.iter().map(|it| it.value as i64).sum()
}

fn sum_weights(items: &[Item]) -> i64 {
    items.iter().map(|it| it.weight as i64).sum()
}

/// A small deterministic generator for the searches below.
fn next(state: &mut u64) -> u64 {
    *state = state.wrapping_mul(6364136223846793005).wrapping_add(1442695040888963407);
    *state >> 33
}

#[test]
fn three_items_capacity_five() {
    let items = vec![item(10, 3), item(6, 2), item(4, 1)];
    let expected = best_by_search(&items, 5);
    assert_eq!(expected, 16);
    let chosen = knapsack(items, 5).unwrap();
    assert_eq!(chosen, vec![item(6, 2), item(10, 3)]);
    assert_eq!(total_value(&chosen), Ok(16));
    assert_eq!(total_weight(&chosen), Ok(5));
    assert_eq!(sum_values(&chosen), expected);
}

#[test]
fn worthless_weightless_item_at_capacity_zero() {
    let chosen = knapsack(vec![item(0, 0)], 0).unwrap();
    assert_eq!(total_value(&chosen), Ok(0));
    assert_eq!(chosen, vec![]);
}

#[test]
fn capacity_zero_selects_nothing() {
    let chosen = knapsack(vec![item(5, 1)], 0).unwrap();
    assert_eq!(chosen, vec![]);
    assert_eq!(total_value(&chosen), Ok(0));
}

#[test]
fn capacity_zero_selects_nothing_whatever_the_items() {
    let chosen = knapsack(vec![item(5, 0), item(7, 1), item(0, 0), item(-3, 0)], 0).unwrap();
    assert_eq!(chosen, vec![]);
}

#[test]
fn no_items_no_selection() {
    for capacity in [0i8, 1, 5, 127] {
        let chosen = knapsack(Vec::new(), capacity).unwrap();
        assert_eq!(chosen, vec![]);
        assert_eq!(total_value(&chosen), Ok(0));
        assert_eq!(total_weight(&chosen), Ok(0));
    }
}

#[test]
fn negative_capacity_is_invalid() {
    assert_eq!(knapsack(vec![item(5, 1)], -1), Err(SolveError::InvalidCapacity));
    assert_eq!(knapsack(Vec::new(), -128), Err(SolveError::InvalidCapacity));
}

#[test]
fn negative_capacity_comes_before_negative_weight() {
    assert_eq!(knapsack(vec![item(5, -1)], -1), Err(SolveError::InvalidCapacity));
}

#[test]
fn negative_weight_is_turned_down() {
    assert_eq!(knapsack(vec![item(5, 1), item(3, -1)], 4), Err(SolveError::NegativeWeight));
    assert_eq!(knapsack(vec![item(5, -128)], 0), Err(SolveError::NegativeWeight));
}

#[test]
fn negative_weight_comes_before_table_size() {
    let mut items = vec![item(1, 1); MAX_TABLE_CELLS];
    items.push(item(1, -1));
    assert_eq!(knapsack(items, 0), Err(SolveError::NegativeWeight));
}

#[test]
fn table_of_the_largest_size_is_built() {
    // 8192 rows of 128 cells each
    let n = MAX_TABLE_CELLS / 128 - 1;
    let items = vec![item(1, 100); n];
    let chosen = knapsack(items, 127).unwrap();
    assert_eq!(chosen, vec![item(1, 100)]);
}

#[test]
fn table_too_large_is_turned_down() {
    // 8193 rows of 128 cells each
    let n = MAX_TABLE_CELLS / 128;
    assert_eq!(knapsack(vec![item(1, 100); n], 127), Err(SolveError::ResourceExhausted));
    // the same items under a smaller capacity fit
    assert!(knapsack(vec![item(1, 100); n], 126).is_ok());
}

#[test]
fn too_many_items_at_capacity_zero() {
    assert_eq!(
        knapsack(vec![item(1, 1); MAX_TABLE_CELLS], 0),
        Err(SolveError::ResourceExhausted)
    );
    assert_eq!(knapsack(vec![item(1, 1); MAX_TABLE_CELLS - 1], 0), Ok(vec![]));
}

#[test]
fn items_too_heavy_are_left_out() {
    let chosen = knapsack(vec![item(9, 6), item(8, 7), item(7, 127)], 5).unwrap();
    assert_eq!(chosen, vec![]);
}

#[test]
fn items_of_negative_value_are_left_out() {
    let chosen = knapsack(vec![item(-1, 1), item(4, 2), item(-128, 0)], 10).unwrap();
    assert_eq!(chosen, vec![item(4, 2)]);
}

#[test]
fn equal_items_count_one_by_one() {
    let chosen = knapsack(vec![item(3, 1), item(3, 1)], 2).unwrap();
    assert_eq!(chosen, vec![item(3, 1), item(3, 1)]);
    let chosen = knapsack(vec![item(3, 1), item(3, 1)], 1).unwrap();
    assert_eq!(chosen, vec![item(3, 1)]);
}

#[test]
fn selection_comes_last_item_first() {
    let chosen = knapsack(vec![item(1, 1), item(2, 1), item(3, 1)], 3).unwrap();
    assert_eq!(chosen, vec![item(3, 1), item(2, 1), item(1, 1)]);
}

#[test]
fn a_tie_leaves_the_later_item_out() {
    // with or without the second item the best value is 5
    let chosen = knapsack(vec![item(5, 2), item(5, 1)], 2).unwrap();
    assert_eq!(chosen, vec![item(5, 2)]);
}

#[test]
fn item_of_no_value_is_left_out() {
    let chosen = knapsack(vec![item(0, 1), item(2, 1)], 5).unwrap();
    assert_eq!(chosen, vec![item(2, 1)]);
}

#[test]
fn free_item_is_taken_while_budget_is_left() {
    let chosen = knapsack(vec![item(5, 0)], 1).unwrap();
    assert_eq!(chosen, vec![item(5, 0)]);
    let chosen = knapsack(vec![item(10, 3), item(5, 0)], 3).unwrap();
    assert_eq!(chosen, vec![item(5, 0), item(10, 3)]);
    let chosen = knapsack(vec![item(5, 0), item(10, 3)], 4).unwrap();
    assert_eq!(chosen, vec![item(10, 3), item(5, 0)]);
}

#[test]
fn free_item_is_left_out_once_the_budget_is_used_up() {
    let chosen = knapsack(vec![item(5, 0)], 0).unwrap();
    assert_eq!(chosen, vec![]);
    // the heavier item uses the whole budget before the walk reaches the free one
    let chosen = knapsack(vec![item(5, 0), item(10, 3)], 3).unwrap();
    assert_eq!(chosen, vec![item(10, 3)]);
}

#[test]
fn largest_capacity_is_accepted() {
    let chosen = knapsack(vec![item(1, 127), item(2, 126)], 127).unwrap();
    assert_eq!(chosen, vec![item(2, 126)]);
    let chosen = knapsack(vec![item(3, 127), item(2, 126)], 127).unwrap();
    assert_eq!(chosen, vec![item(3, 127)]);
}

#[test]
fn table_cells_hold_more_than_eight_bits() {
    let chosen = knapsack(vec![item(127, 1); 100], 100).unwrap();
    assert_eq!(chosen.len(), 100);
    assert_eq!(sum_values(&chosen), 12700);
    assert_eq!(total_value(&chosen), Err(SolveError::ArithmeticOverflow));
    assert_eq!(total_weight(&chosen), Ok(100));
}

#[test]
fn totals_are_exact() {
    assert_eq!(total_value(&[]), Ok(0));
    assert_eq!(total_value(&[item(100, 1), item(27, 1)]), Ok(127));
    assert_eq!(total_value(&[item(100, 1), item(28, 1)]), Err(SolveError::ArithmeticOverflow));
    assert_eq!(total_value(&[item(-100, 1), item(-28, 1)]), Ok(-128));
    assert_eq!(total_value(&[item(-100, 1), item(-29, 1)]), Err(SolveError::ArithmeticOverflow));
    // the sum passes 127 on the way and comes back
    assert_eq!(total_value(&[item(100, 1), item(100, 1), item(-100, 1)]), Ok(100));
    assert_eq!(total_weight(&[item(1, 100), item(1, 27)]), Ok(127));
    assert_eq!(total_weight(&[item(1, 100), item(1, 28)]), Err(SolveError::ArithmeticOverflow));
    assert_eq!(total_weight(&[item(1, -128)]), Ok(-128));
    assert_eq!(total_weight(&[item(1, -128), item(1, -1)]), Err(SolveError::ArithmeticOverflow));
}

#[test]
fn selection_weighs_no_more_than_the_capacity() {
    let mut state: u64 = 7;
    for _ in 0..300 {
        let n = (next(&mut state) % 12) as usize;
        let capacity = (next(&mut state) % 128) as i8;
        let items: Vec<Item> = (0..n)
            .map(|_| item((next(&mut state) % 256) as u8 as i8, (next(&mut state) % 128) as i8))
            .collect();
        let chosen = knapsack(items, capacity).unwrap();
        assert!(sum_weights(&chosen) <= capacity as i64);
    }
}

#[test]
fn selection_is_made_of_the_items() {
    let mut state: u64 = 11;
    for _ in 0..200 {
        let n = (next(&mut state) % 10) as usize;
        let capacity = (next(&mut state) % 40) as i8;
        let items: Vec<Item> = (0..n)
            .map(|_| item((next(&mut state) % 256) as u8 as i8, (next(&mut state) % 20) as i8))
            .collect();
        let chosen = knapsack(items.clone(), capacity).unwrap();
        // going back through the items, each selected one is met in turn
        let mut at = items.len();
        for taken in &chosen {
            loop {
                assert!(at > 0);
                at -= 1;
                if items[at] == *taken {
                    break;
                }
            }
        }
    }
}

#[test]
fn selection_matches_search_over_all_subsets() {
    let mut state: u64 = 3;
    for round in 0..300 {
        let n = if round < 5 { 15 } else { (next(&mut state) % 11) as usize };
        let capacity = (next(&mut state) % 60) as i8;
        let items: Vec<Item> = (0..n)
            .map(|_| {
                let value = (next(&mut state) % 256) as u8 as i8;
                // every weightless item is worth nothing or less
                let weight = if value > 0 { 1 + (next(&mut state) % 30) as i8 } else {
                    (next(&mut state) % 30) as i8
                };
                item(value, weight)
            })
            .collect();
        let expected = best_by_search(&items, capacity);
        let chosen = knapsack(items, capacity).unwrap();
        assert_eq!(sum_values(&chosen), expected);
        assert!(sum_weights(&chosen) <= capacity as i64);
    }
}

#[test]
fn solving_twice_gives_the_same() {
    let items = vec![item(4, 3), item(4, 3), item(7, 5), item(1, 1), item(-2, 0), item(6, 4)];
    for capacity in 0i8..=20 {
        let first = knapsack(items.clone(), capacity).unwrap();
        let second = knapsack(items.clone(), capacity).unwrap();
        assert_eq!(first, second);
        assert_eq!(sum_values(&first), sum_values(&second));
    }
}

#[test]
fn more_capacity_never_lowers_the_value() {
    let items = vec![item(4, 3), item(5, 0), item(7, 5), item(1, 1), item(9, 8), item(6, 4)];
    let mut before: i64 = 0;
    for capacity in 0i8..=127 {
        let chosen = knapsack(items.clone(), capacity).unwrap();
        let value = sum_values(&chosen);
        assert!(value >= before);
        before = value;
    }
    assert_eq!(before, 32);
}
