use idioms::iter::{IterOps, Iterator, SliceIterator};
use idioms::unique::UniqueIterator;
use std::collections::HashMap;

#[test]
fn iter_works() {
    let mut slice_iter = SliceIterator::new(&[1, 2, 3, 4, 5]);
    assert_eq!(slice_iter.next(), Some(1));

    let rest: Vec<_> = slice_iter.collect();
    assert_eq!(rest, vec![2, 3, 4, 5]);

    let tuples = &[("a".to_string(), 1), ("b".to_string(), 2)];
    let tuples_iter = SliceIterator::new(tuples);

    let map: HashMap<_, _> = tuples_iter.collect();
    assert_eq!(map.len(), 2);
    assert_eq!(map.get("a"), Some(&1));
    assert_eq!(map.get("b"), Some(&2));
}

#[test]
fn map_works() {
    let slice_iter = SliceIterator::new(&[1, 2, 3, 4, 5]);

    let map_list: Vec<_> = slice_iter.map(|x| x - 1).collect();
    assert_eq!(map_list, vec![0, 1, 2, 3, 4]);
}

#[test]
fn filter_works() {
    let slice_iter = SliceIterator::new(&[1, 2, 3, 4, 5]);

    let filter_list: Vec<_> = slice_iter.filter(|x| *x > 3).collect();
    assert_eq!(filter_list, vec![4, 5]);
}

#[test]
fn later_pairs_win_when_collecting_into_a_map() {
    let pairs = &[(1u8, "x"), (2, "y"), (1, "z")];
    let map: HashMap<_, _> = SliceIterator::new(pairs).collect();
    assert_eq!(map.len(), 2);
    assert_eq!(map.get(&1), Some(&"z"));
}

#[test]
fn exhausted_iterator_keeps_returning_none() {
    let mut it = SliceIterator::new(&[7]);
    assert_eq!(it.next(), Some(7));
    assert_eq!(it.next(), None);
    assert_eq!(it.next(), None);
}

#[test]
fn map_then_filter_composes() {
    let out: Vec<i32> = SliceIterator::new(&[1, 2, 3, 4, 5, 6])
        .map(|x| x * 10)
        .filter(|x| *x % 20 == 0)
        .collect();
    assert_eq!(out, vec![20, 40, 60]);
}

fn unique_items<I>(iter: I) -> Vec<I::Item>
where
    I: std::iter::Iterator,
    I::Item: Clone + Eq + std::hash::Hash,
{
    let mut unique = iter.unique();
    let mut out = Vec::new();
    while let Some(x) = unique.next() {
        out.push(x);
    }
    out
}

#[test]
fn test_unique_iterator() {
    let list = vec![1, 1, 2, 2, 4];
    let unique_list = unique_items(list.into_iter());
    assert_eq!(unique_list, vec![1, 2, 4]);

    let list = vec!["aa", "aa", "bb"];
    let unique_list = unique_items(list.into_iter());
    assert_eq!(unique_list, vec!["aa", "bb"]);
}

#[test]
fn unique_keeps_first_occurrence_order() {
    let unique_list = unique_items(vec![3, 1, 3, 2, 1].into_iter());
    assert_eq!(unique_list, vec![3, 1, 2]);
}
