use asylum_core::bytes::{bytes_copy, bytes_eq, opt_copy};
use asylum_core::ids::IdAllocator;
use asylum_core::types::Error;
use asylum_core::table::{dup_vec, Dup, Key, Table};

#[test]
fn byte_strings_are_compared_by_their_bytes() {
    assert!(bytes_eq(&vec![], &vec![]));
    assert!(bytes_eq(&vec![1, 2, 3], &vec![1, 2, 3]));
    assert!(!bytes_eq(&vec![1, 2, 3], &vec![1, 2, 4]));
    assert!(!bytes_eq(&vec![1, 2, 3], &vec![1, 2]));
    assert!(!bytes_eq(&vec![], &vec![0]));
    assert_eq!(bytes_copy(&vec![9, 8, 7]), vec![9, 8, 7]);
    assert_eq!(bytes_copy(&vec![]), Vec::<u8>::new());
    assert_eq!(opt_copy(&Some(vec![1])), Some(vec![1]));
    assert_eq!(opt_copy(&None), None);
}

#[test]
fn keys_are_compared_by_their_views() {
    assert!(5u32.same(&5));
    assert!(!5u32.same(&6));
    assert!(vec![1u8, 2].same(&vec![1, 2]));
    assert!(!vec![1u8, 2].same(&vec![2, 1]));
    assert_eq!(7u32.dup(), 7);
    assert_eq!((3u32, vec![1u8]).dup(), (3, vec![1]));
    assert_eq!(dup_vec(&vec![vec![1u8], vec![2, 3]]), vec![vec![1u8], vec![2, 3]]);
}

#[test]
fn a_table_binds_each_key_once() {
    let mut t: Table<u32, Vec<u8>> = Table::new();
    assert!(t.is_empty());
    assert_eq!(t.len(), 0);
    assert_eq!(t.get(&1), None);
    t.insert(1, vec![10]);
    t.insert(2, vec![20]);
    t.insert(1, vec![11]);
    assert_eq!(t.len(), 2);
    assert!(!t.is_empty());
    assert_eq!(t.get(&1), Some(&vec![11]));
    assert_eq!(t.get(&2), Some(&vec![20]));
    assert_eq!(t.get(&3), None);
    assert!(t.contains_key(&2));
    assert!(!t.contains_key(&3));
    assert_eq!(t.find(&2), Some(1));
    assert_eq!(t.find(&3), None);
    assert_eq!(t.key(0), &1);
    assert_eq!(t.value(1), &vec![20]);
    t.value_mut(1).push(21);
    assert_eq!(t.get(&2), Some(&vec![20, 21]));
    t.push_fresh(3, vec![30]);
    assert_eq!(t.find(&3), Some(2));
    assert_eq!(t.remove(&1), Some(vec![11]));
    assert_eq!(t.remove(&1), None);
    assert_eq!(t.len(), 2);
    assert_eq!(t.find(&2), Some(0));
    assert_eq!(t.find(&3), Some(1));
    let copy = t.clone();
    assert_eq!(copy, t);
    assert_eq!(t.dup(), t);
}

#[test]
fn a_table_is_keyed_by_byte_strings_too() {
    let mut t: Table<Vec<u8>, u32> = Table::new();
    t.insert(b"dark".to_vec(), 1);
    t.insert(b"light".to_vec(), 2);
    assert_eq!(t.get(&b"dark".to_vec()), Some(&1));
    assert_eq!(t.get(&b"dar".to_vec()), None);
    assert_eq!(t.remove(&b"light".to_vec()), Some(2));
    assert_eq!(t.len(), 1);
}

#[test]
fn numbers_are_handed_out_in_turn() {
    let mut ids = IdAllocator::new();
    assert_eq!(ids.next(), 0);
    assert_eq!(ids.peek(3), Some(0));
    assert_eq!(ids.allocate(3), Ok(0));
    assert_eq!(ids.allocate(3), Ok(1));
    assert_eq!(ids.peek(2), None);
    assert_eq!(ids.allocate(2), Err(Error::NoAvailableId));
    assert_eq!(ids.next(), 2);
    assert_eq!(ids.allocate(3), Ok(2));
    assert_eq!(ids.allocate(3), Err(Error::NoAvailableId));
    assert_eq!(ids.peek(0), None);
    assert_eq!(ids.peek(u32::MAX), Some(3));
    assert_eq!(ids.allocate(u32::MAX), Ok(3));
    assert_eq!(ids.next(), 4);
}
