use did_registry::bounded_list::{BoundedList, CollectionError};
use did_registry::bounded_map::{copy_entries, BoundedMap};
use did_registry::bytes::{bytes_eq, copy_bytes, copy_list};

#[test]
fn bytes_are_compared_by_content() {
    assert!(bytes_eq(&b"abc".to_vec(), &b"abc".to_vec()));
    assert!(!bytes_eq(&b"abc".to_vec(), &b"abd".to_vec()));
    assert!(!bytes_eq(&b"abc".to_vec(), &b"ab".to_vec()));
    assert!(bytes_eq(&Vec::new(), &Vec::new()));
    assert!(!bytes_eq(&Vec::new(), &vec![0]));
}

#[test]
fn bytes_are_copied_whole() {
    assert_eq!(copy_bytes(&b"0x1234".to_vec()), b"0x1234".to_vec());
    assert_eq!(copy_bytes(&Vec::new()), Vec::<u8>::new());
    let items = vec![b"a".to_vec(), Vec::new(), b"ccc".to_vec()];
    assert_eq!(copy_list(&items), items);
    let entries = vec![(3u32, b"c".to_vec()), (1, Vec::new())];
    assert_eq!(copy_entries(&entries), entries);
}

#[test]
fn list_refuses_past_capacity() {
    let mut list = BoundedList::new(2);
    assert_eq!(list.len(), 0);
    assert_eq!(list.max_len(), 2);
    assert!(!list.is_full());
    assert_eq!(list.try_insert(b"a".to_vec()), Ok(()));
    assert_eq!(list.try_insert(b"b".to_vec()), Ok(()));
    assert!(list.is_full());
    let before = list.clone();
    assert_eq!(list.try_insert(b"c".to_vec()), Err(CollectionError::CapacityExceeded));
    assert_eq!(list, before);
    assert_eq!(list.to_vec(), vec![b"a".to_vec(), b"b".to_vec()]);
    assert_eq!(list.len(), 2);
}

#[test]
fn list_of_capacity_zero_is_always_full() {
    let mut list = BoundedList::new(0);
    assert!(list.is_full());
    assert_eq!(list.try_insert(Vec::new()), Err(CollectionError::CapacityExceeded));
    assert_eq!(list.len(), 0);
}

#[test]
fn list_keeps_order_and_duplicates() {
    let mut list = BoundedList::new(4);
    for item in [b"x".to_vec(), b"y".to_vec(), b"x".to_vec()] {
        assert_eq!(list.try_insert(item), Ok(()));
    }
    assert_eq!(list.to_vec(), vec![b"x".to_vec(), b"y".to_vec(), b"x".to_vec()]);
    assert_eq!(list.position(&b"x".to_vec()), Some(0));
    assert_eq!(list.position(&b"y".to_vec()), Some(1));
    assert_eq!(list.position(&b"z".to_vec()), None);
    assert!(list.contains(&b"y".to_vec()));
    assert!(!list.contains(&b"".to_vec()));
}

#[test]
fn list_removes_first_occurrence_only() {
    let mut list = BoundedList::from_vec(
        vec![b"x".to_vec(), b"y".to_vec(), b"x".to_vec()],
        3,
    )
    .unwrap();
    assert_eq!(list.remove(&b"x".to_vec()), Ok(()));
    assert_eq!(list.to_vec(), vec![b"y".to_vec(), b"x".to_vec()]);
    assert_eq!(list.remove(&b"q".to_vec()), Err(CollectionError::NotPresent));
    assert_eq!(list.to_vec(), vec![b"y".to_vec(), b"x".to_vec()]);
    assert_eq!(list.remove(&b"x".to_vec()), Ok(()));
    assert_eq!(list.remove(&b"x".to_vec()), Err(CollectionError::NotPresent));
    assert_eq!(list.to_vec(), vec![b"y".to_vec()]);
    assert_eq!(list.max_len(), 3);
}

#[test]
fn list_from_vec_checks_the_capacity() {
    assert!(BoundedList::from_vec(vec![vec![1], vec![2]], 1).is_none());
    let list = BoundedList::from_vec(vec![vec![1], vec![2]], 2).unwrap();
    assert_eq!(list.len(), 2);
    assert!(list.is_full());
    assert!(BoundedList::from_vec(Vec::new(), 0).is_some());
}

#[test]
fn map_keeps_entries_in_key_order() {
    let mut map = BoundedMap::new(5);
    for (key, value) in [(5u32, b"five"), (1, b"one."), (3, b"tri."), (4, b"four"), (2, b"two.")] {
        assert_eq!(map.try_insert(key, value.to_vec()), Ok(()));
    }
    assert_eq!(
        map.to_vec(),
        vec![
            (1, b"one.".to_vec()),
            (2, b"two.".to_vec()),
            (3, b"tri.".to_vec()),
            (4, b"four".to_vec()),
            (5, b"five".to_vec()),
        ]
    );
    assert_eq!(map.len(), 5);
    assert!(map.is_full());
    assert_eq!(map.get(3), Some(&b"tri.".to_vec()));
    assert_eq!(map.get(6), None);
    assert!(map.contains_key(1));
    assert!(!map.contains_key(0));
}

#[test]
fn map_refuses_past_capacity_before_looking_at_the_key() {
    let mut map = BoundedMap::new(2);
    assert_eq!(map.try_insert(7, b"a".to_vec()), Ok(()));
    assert_eq!(map.try_insert(7, b"b".to_vec()), Err(CollectionError::DuplicateKey));
    assert_eq!(map.get(7), Some(&b"a".to_vec()));
    assert_eq!(map.try_insert(u32::MAX, b"c".to_vec()), Ok(()));
    let before = map.clone();
    assert_eq!(map.try_insert(7, b"d".to_vec()), Err(CollectionError::CapacityExceeded));
    assert_eq!(map.try_insert(8, b"d".to_vec()), Err(CollectionError::CapacityExceeded));
    assert_eq!(map, before);
    assert_eq!(map.max_len(), 2);
}

#[test]
fn map_removes_by_key() {
    let mut map = BoundedMap::new(3);
    assert_eq!(map.try_insert(0, b"zero".to_vec()), Ok(()));
    assert_eq!(map.try_insert(9, b"nine".to_vec()), Ok(()));
    assert_eq!(map.remove(4), Err(CollectionError::NotPresent));
    assert_eq!(map.len(), 2);
    assert_eq!(map.remove(0), Ok(()));
    assert_eq!(map.to_vec(), vec![(9, b"nine".to_vec())]);
    assert_eq!(map.remove(0), Err(CollectionError::NotPresent));
    assert_eq!(map.remove(9), Ok(()));
    assert_eq!(map.len(), 0);
    assert_eq!(map, BoundedMap::new(3));
}

#[test]
fn map_insert_then_remove_restores_the_layout() {
    let mut map = BoundedMap::new(4);
    assert_eq!(map.try_insert(10, b"a".to_vec()), Ok(()));
    assert_eq!(map.try_insert(30, b"c".to_vec()), Ok(()));
    let before = map.clone();
    assert_eq!(map.try_insert(20, b"b".to_vec()), Ok(()));
    assert_eq!(map.remove(20), Ok(()));
    assert_eq!(map, before);
}

#[test]
fn map_from_vec_checks_order_and_capacity() {
    assert!(BoundedMap::from_vec(vec![(1, vec![1]), (2, vec![2])], 2).is_some());
    assert!(BoundedMap::from_vec(vec![(1, vec![1]), (2, vec![2])], 1).is_none());
    assert!(BoundedMap::from_vec(vec![(2, vec![1]), (1, vec![2])], 2).is_none());
    assert!(BoundedMap::from_vec(vec![(1, vec![1]), (1, vec![1])], 2).is_none());
    assert!(BoundedMap::from_vec(vec![(1, vec![]), (2, vec![]), (2, vec![])], 5).is_none());
    assert!(BoundedMap::from_vec(Vec::new(), 0).is_some());
    let map = BoundedMap::from_vec(vec![(4, vec![4]), (8, vec![8])], 3).unwrap();
    assert_eq!(map.get(8), Some(&vec![8]));
    assert_eq!(map.len(), 2);
}
