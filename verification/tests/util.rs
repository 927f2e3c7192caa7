use holocard::util::{pick_random, shuffle_copy, shuffle_in_place};

#[test]
fn shuffle_with_identity_draws_keeps_order() {
    let mut items = vec![1, 2, 3, 4];
    shuffle_in_place(&mut items, &[0, 1, 2, 3]);
    assert_eq!(items, vec![1, 2, 3, 4]);
}

#[test]
fn shuffle_follows_the_draws() {
    // i = 3 swaps with 0: [4, 2, 3, 1]; i = 2 swaps with 1: [4, 3, 2, 1];
    // i = 1 swaps with 0: [3, 4, 2, 1].
    let mut items = vec![1, 2, 3, 4];
    shuffle_in_place(&mut items, &[0, 0, 1, 0]);
    assert_eq!(items, vec![3, 4, 2, 1]);
}

#[test]
fn shuffle_is_a_permutation() {
    let mut items = vec![5, 1, 5, 9, 2, 7];
    shuffle_in_place(&mut items, &[0, 1, 0, 2, 4, 1]);
    let mut sorted = items.clone();
    sorted.sort();
    assert_eq!(sorted, vec![1, 2, 5, 5, 7, 9]);
}

#[test]
fn shuffle_of_short_lists_needs_no_draws() {
    let mut none: Vec<u8> = vec![];
    shuffle_in_place(&mut none, &[]);
    assert!(none.is_empty());
    let mut one = vec![7];
    shuffle_in_place(&mut one, &[]);
    assert_eq!(one, vec![7]);
}

#[test]
fn shuffle_copy_leaves_input() {
    let items = vec!["a".to_string(), "b".to_string(), "c".to_string()];
    let out = shuffle_copy(&items, &[0, 0, 0]);
    assert_eq!(items, vec!["a", "b", "c"]);
    // i = 2 swaps with 0: [c, b, a]; i = 1 swaps with 0: [b, c, a].
    assert_eq!(out, vec!["b", "c", "a"]);
}

#[test]
fn pick_random_picks_the_drawn_item() {
    let items = vec!["x".to_string(), "y".to_string()];
    assert_eq!(pick_random(&items, 1), Some("y".to_string()));
    assert_eq!(pick_random(&items, 0), Some("x".to_string()));
}

#[test]
fn pick_random_of_nothing_is_none() {
    assert_eq!(pick_random(&[], 0), None);
}

#[test]
fn every_sequence_of_picks_gives_its_own_order() {
    let mut orders: Vec<Vec<u8>> = Vec::new();
    for a in 0..=1usize {
        for b in 0..=2usize {
            for c in 0..=3usize {
                let mut items = vec![10u8, 20, 30, 40];
                shuffle_in_place(&mut items, &[0, a, b, c]);
                orders.push(items);
            }
        }
    }
    assert_eq!(orders.len(), 24);
    for i in 0..orders.len() {
        for j in (i + 1)..orders.len() {
            assert_ne!(orders[i], orders[j]);
        }
    }
}
