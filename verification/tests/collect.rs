use iter_python::extension_traits::IteratorExt;
use std::collections::HashMap;

#[test]
fn vec_keeps_the_order() {
    assert_eq!((0..5).vec(), vec![0, 1, 2, 3, 4]);
    assert_eq!(vec!["b", "a", "b"].into_iter().vec(), vec!["b", "a", "b"]);
}

#[test]
fn vec_of_nothing_is_empty() {
    assert_eq!((0..0).vec(), Vec::<i32>::new());
}

#[test]
fn vec_gives_what_collect_gives() {
    let by_vec = (0u32..50).filter(|x| x % 3 == 1).map(|x| x * x).vec();
    let by_collect: Vec<u32> = (0u32..50).filter(|x| x % 3 == 1).map(|x| x * x).collect();
    assert_eq!(by_vec, by_collect);
}

#[test]
fn dict_of_squares() {
    let mut expected = HashMap::new();
    expected.insert(1, 1);
    expected.insert(2, 4);
    assert_eq!((1..=2).map(|x| (x, x * x)).dict(), expected);
}

#[test]
fn dict_of_nothing_is_empty() {
    let empty: HashMap<u8, u8> = Vec::<(u8, u8)>::new().into_iter().dict();
    assert!(empty.is_empty());
}

#[test]
fn dict_keeps_the_last_value_of_a_key() {
    let pairs = vec![("a", 1), ("b", 2), ("a", 3), ("c", 4), ("b", 5)];
    let map = pairs.into_iter().dict();
    assert_eq!(map.len(), 3);
    assert_eq!(map["a"], 3);
    assert_eq!(map["b"], 5);
    assert_eq!(map["c"], 4);
    assert!(!map.contains_key("d"));
}

#[test]
fn dict_gives_what_collect_gives() {
    let pairs: Vec<(String, usize)> =
        ["x", "yy", "x", "zzz", "yy"].iter().enumerate().map(|(i, s)| (s.to_string(), i)).vec();
    let by_collect: HashMap<String, usize> = pairs.clone().into_iter().collect();
    assert_eq!(pairs.into_iter().dict(), by_collect);
}

#[test]
fn mapped_items_filtered_by_a_guard() {
    let evens_squared =
        Iterator::filter_map(0..10, move |x| if x % 2 == 0 { Some(x * x) } else { None }).vec();
    let chained = (0..10).filter(|x| x % 2 == 0).map(|x| x * x).vec();
    assert_eq!(evens_squared, vec![0, 4, 16, 36, 64]);
    assert_eq!(evens_squared, chained);
}

#[test]
fn nested_iteration() {
    let pairs = Iterator::flat_map(0..3, move |i| Iterator::map(0..2, move |j| (i, j))).vec();
    assert_eq!(pairs, vec![(0, 0), (0, 1), (1, 0), (1, 1), (2, 0), (2, 1)]);
}

#[test]
fn nested_iteration_with_guards() {
    let pairs = Iterator::flat_map(0..4, move |i| {
        Iterator::flatten(IntoIterator::into_iter(if i != 2 {
            Some(Iterator::filter_map(0..i, move |j| if j != 1 { Some((i, j)) } else { None }))
        } else {
            None
        }))
    })
    .vec();
    assert_eq!(pairs, vec![(1, 0), (3, 0), (3, 2)]);
}

#[test]
fn guard_that_matches_a_pattern() {
    let strings = ["42", "0", "zero", "27"];
    let parsed = strings.iter().map(|s| s.parse::<i32>());
    let numbers =
        Iterator::filter_map(parsed, move |res| if let Ok(x) = res { Some(x) } else { None }).vec();
    assert_eq!(numbers, vec![42, 0, 27]);
    assert_eq!(numbers.iter().sum::<i32>(), 42 + 0 + 27);
}
