use minidump::range_index::{into_range_index, sort_entries, AddressRange, RangeIndex};
use minidump::rangemap::{into_rangemap_safe, rangemap_get, rangemap_to_entries};

fn r(start: u64, end: u64) -> AddressRange {
    AddressRange { start, end }
}

#[test]
fn overlapping_values_conflict() {
    // Overlap between two differently-valued ranges drops the later
    // one and reports exactly one conflict.
    let input: Vec<(AddressRange, String)> = vec![
        (r(0x1000, 0x1fff), String::from("A")),
        (r(0x1800, 0x28ff), String::from("B")),
        (r(0x2900, 0x3000), String::from("A")),
    ];
    let (idx, dropped) = into_range_index(input);
    let kept = idx.entries();
    assert_eq!(kept.len(), 2);
    assert_eq!(kept[0], (r(0x1000, 0x1fff), String::from("A")));
    assert_eq!(kept[1], (r(0x2900, 0x3000), String::from("A")));
    assert_eq!(dropped.len(), 1);
    assert_eq!(dropped[0], (r(0x1800, 0x28ff), String::from("B")));
}

#[test]
fn touching_equal_values_merge() {
    let input: Vec<(AddressRange, String)> = vec![
        (r(0x1000, 0x1fff), String::from("M")),
        (r(0x2000, 0x2fff), String::from("M")),
    ];
    let (idx, dropped) = into_range_index(input);
    let kept = idx.entries();
    assert_eq!(kept.len(), 1);
    assert_eq!(kept[0], (r(0x1000, 0x2fff), String::from("M")));
    assert!(dropped.is_empty());
}

#[test]
fn overlapping_equal_values_merge() {
    let input: Vec<(AddressRange, u64)> = vec![(r(10, 30), 7), (r(20, 50), 7)];
    let (idx, dropped) = into_range_index(input);
    assert_eq!(idx.entries().as_slice(), &[(r(10, 50), 7)]);
    assert!(dropped.is_empty());
}

#[test]
fn gapped_equal_values_stay_separate() {
    let input: Vec<(AddressRange, u64)> = vec![(r(10, 20), 7), (r(22, 30), 7)];
    let (idx, dropped) = into_range_index(input);
    assert_eq!(idx.entries().as_slice(), &[(r(10, 20), 7), (r(22, 30), 7)]);
    assert!(dropped.is_empty());
}

#[test]
fn adjacent_differing_values_stay_separate() {
    let input: Vec<(AddressRange, u64)> = vec![(r(10, 20), 1), (r(21, 30), 2)];
    let (idx, dropped) = into_range_index(input);
    assert_eq!(idx.entries().as_slice(), &[(r(10, 20), 1), (r(21, 30), 2)]);
    assert!(dropped.is_empty());
}

#[test]
fn unsorted_input_is_sorted_first() {
    let input: Vec<(AddressRange, u64)> = vec![(r(0x2000, 0x2fff), 2), (r(0x1000, 0x1fff), 1)];
    let (idx, dropped) = into_range_index(input);
    assert_eq!(idx.entries().as_slice(), &[(r(0x1000, 0x1fff), 1), (r(0x2000, 0x2fff), 2)]);
    assert!(dropped.is_empty());
}

#[test]
fn sort_is_stable_for_equal_starts() {
    let input: Vec<(AddressRange, u64)> = vec![(r(5, 9), 1), (r(1, 3), 0), (r(5, 9), 2)];
    let sorted = sort_entries(input);
    assert_eq!(sorted.as_slice(), &[(r(1, 3), 0), (r(5, 9), 1), (r(5, 9), 2)]);
    // Equal starts with different ends also keep their arrival order.
    let input: Vec<(AddressRange, u64)> = vec![(r(5, 9), 1), (r(5, 7), 2), (r(5, 8), 3)];
    let sorted = sort_entries(input);
    assert_eq!(sorted.as_slice(), &[(r(5, 9), 1), (r(5, 7), 2), (r(5, 8), 3)]);
}

#[test]
fn lookup_finds_at_most_one_entry() {
    let input: Vec<(AddressRange, u64)> = vec![
        (r(0x1000, 0x1fff), 1),
        (r(0x1800, 0x28ff), 2),
        (r(0x3000, 0x3fff), 3),
    ];
    let (idx, _) = into_range_index(input);
    assert_eq!(idx.get(0x0fff), None);
    assert_eq!(idx.get(0x1000), Some(&1));
    assert_eq!(idx.get(0x1fff), Some(&1));
    assert_eq!(idx.get(0x2000), None); // the conflicting entry was dropped
    assert_eq!(idx.get(0x3000), Some(&3));
    assert_eq!(idx.get(0x3fff), Some(&3));
    assert_eq!(idx.get(0x4000), None);
    // Disjointness: walking all entries, no two ranges overlap.
    let es = idx.entries();
    for i in 1..es.len() {
        assert!(es[i - 1].0.end < es[i].0.start);
    }
}

#[test]
fn empty_input_gives_empty_index() {
    let input: Vec<(AddressRange, u64)> = vec![];
    let (idx, dropped) = into_range_index(input);
    assert_eq!(idx.len(), 0);
    assert!(dropped.is_empty());
    assert_eq!(idx.get(0), None);
}

#[test]
fn saturating_merge_at_the_top_of_the_address_space() {
    let top = u64::MAX;
    let input: Vec<(AddressRange, u64)> = vec![(r(top - 10, top), 1), (r(top - 5, top), 1)];
    let (idx, dropped) = into_range_index(input);
    assert_eq!(idx.entries().as_slice(), &[(r(top - 10, top), 1)]);
    assert!(dropped.is_empty());
}

#[test]
fn rangemap_round_trip() {
    let input: Vec<(AddressRange, u64)> = vec![
        (r(0x1000, 0x1fff), 0),
        (r(0x1800, 0x28ff), 1),
        (r(0x2900, 0x3000), 2),
    ];
    let (map, dropped) = into_rangemap_safe(input);
    assert_eq!(dropped.len(), 1);
    assert_eq!(dropped[0], (r(0x1800, 0x28ff), 1));
    assert_eq!(rangemap_to_entries(&map), vec![(0x1000, 0x1fff, 0), (0x2900, 0x3000, 2)]);
    assert_eq!(rangemap_get(&map, 0x1800), Some(0));
    assert_eq!(rangemap_get(&map, 0x2900), Some(2));
    assert_eq!(rangemap_get(&map, 0x2000), None);
}

#[test]
fn range_contains_is_inclusive() {
    let a = r(10, 20);
    assert!(!a.contains(9));
    assert!(a.contains(10));
    assert!(a.contains(20));
    assert!(!a.contains(21));
}

#[test]
fn index_clone_preserves_entries() {
    let input: Vec<(AddressRange, u64)> = vec![(r(1, 2), 9)];
    let (idx, _) = into_range_index(input);
    let copy: RangeIndex<u64> = idx.clone();
    assert_eq!(copy.entries().as_slice(), idx.entries().as_slice());
}
